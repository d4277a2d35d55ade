[package]
name = "huidu"
version = "0.1.0"
edition = "2021"
publish = false

[dependencies]
bytes = "1"
tokio = { version = "1", features = ["full"] }
tokio-util = { version = "0.7", features = ["codec"] }
futures = "0.3"
async-stream = "0.3"
md-5 = "0.10"
quick-xml = "0.36"
thiserror = "1"
tracing = "0.1"
