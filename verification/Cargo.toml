[package]
name = "dataflow_control"
version = "0.1.0"
edition = "2021"
publish = false

[dependencies]
clap = { version = "4", features = ["derive"] }
dashmap = "6"
dunce = "1"
env_logger = "0.11"
eyre = "0.6"
flume = "0.10"
futures = "0.3"
inquire = "0.7"
itertools = "0.14"
log = { version = "0.4", features = ["serde"] }
petname = { version = "2", default-features = false, features = ["default-rng", "default-words"] }
pyo3 = { version = "0.17", features = ["eyre", "abi3-py37"] }
serde = { version = "1", features = ["derive"] }
serde_json = "1"
tarpc = { version = "*", features = ["serde-transport", "serde-transport-json", "tcp", "tokio1"] }
tokio = { version = "1", features = ["full"] }
tracing = "0.1"
uhlc = { version = "*", features = ["std"] }
uuid = { version = "1", features = ["v4", "v7", "serde"] }
