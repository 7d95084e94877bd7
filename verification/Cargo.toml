[package]
name = "meowth"
version = "0.1.0"
edition = "2021"
publish = false

[dependencies]
chrono = { version = "0.4", features = ["serde"] }
yaml-rust = "0.4"
hostname = "0.1"
serde = { version = "1", features = ["derive"] }
serde_json = "1"
elastic_types = "*"
elastic_types_derive = "*"
json_str = "*"
statsd = "*"
time = "0.1"
getopts = "0.2"
env_logger = "*"
log = "0.4"
zmq = "*"
