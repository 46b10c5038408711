[package]
name = "eleven100p"
version = "0.1.0"
edition = "2021"
publish = false

[dependencies]
futures-core = "0.3"
http-body-util = "0.1"
hyper = { version = "1", features = ["client", "http1"] }
hyper-util = { version = "0.1", features = ["client-legacy", "http1", "tokio"] }
serde = "1"
serde_json = "1"
thiserror = "1"
tokio = { version = "1", features = ["io-util", "macros", "process", "rt", "sync"] }
tokio-util = "0.7"
