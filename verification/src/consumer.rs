//! Values that consumers hand to the processing pipeline.

use vstd::prelude::*;

verus! {

/// The kind of a metric that a consumer reports about its traffic.
#[derive(Debug, Clone, Copy, PartialEq, Eq)]
pub enum MetricType {
    Timer,
    Gauge,
    Counter,
}

/// A raw message received by a consumer, not yet parsed.
#[derive(Debug)]
pub struct Msg {
    pub payload: String,
}

impl Msg {
    /// Wraps a received payload.
    pub fn new(payload: &str) -> (msg: Msg)
        ensures
            msg.payload@ == payload@,
    {
        Msg { payload: payload.to_owned() }
    }
}

} // verus!
