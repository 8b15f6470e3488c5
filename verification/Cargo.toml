[package]
name = "restate_sdk"
version = "0.1.0"
edition = "2021"
publish = false

[dependencies]
dashmap = "6"
base64 = "0.22"
bytes = "1"
tokio = { version = "1", features = ["full"] }
tokio-util = "0.7"
tokio-stream = "0.1"
hyper = { version = "1", features = ["server", "http2"] }
hyper-util = { version = "0.1", features = ["tokio"] }
http = "1"
http-body = "1"
http-body-util = "0.1"
parking_lot = "0.12"
serde = { version = "1", features = ["derive"] }
serde_json = "1"
anyhow = "1"
tracing = "0.1"
tracing-subscriber = "0.3"
futures = "0.3"
reqwest = { version = "0.12", default-features = false, features = ["json"] }
