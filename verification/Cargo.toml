[package]
name = "http_server"
version = "0.1.0"
edition = "2021"
publish = false

[dependencies]
anyhow = "=1.0.104"
async-trait = "=0.1.92"
http-body-util = "=0.1.5"
hyper = { version = "=1.12.0", features = ["http1", "http2", "server"] }
hyper-staticfile = "=0.10.1"
hyper-util = { version = "=0.1.21", features = ["tokio"] }
pin-project = "=1.1.13"
regex = "=1.13.1"
serde = { version = "=1.0.229", features = ["derive"] }
serde_json = "=1.0.154"
tokio = { version = "=1.54.1", features = ["full"] }
tracing = "=0.1.44"
tracing-subscriber = "0.3"
