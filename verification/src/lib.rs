//! Log shipping core: message framing, log record enrichment, bulk
//! request assembly, configuration loading and round-robin management of
//! search-cluster clients.

pub mod consumer;
pub mod text;
pub mod bulk;
pub mod framing;
pub mod es_manager;
pub mod models;
pub mod config;
