[package]
name = "qp2p"
version = "0.1.0"
edition = "2021"
publish = false

[dependencies]
backoff = { version = "0.4", features = ["tokio"] }
bytes = "1"
futures = "0.3"
quinn = "0.8"
rand = "0.8"
tokio = { version = "1", features = ["sync", "time", "rt", "macros"] }
tracing = "0.1"
