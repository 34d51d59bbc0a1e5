[package]
name = "chrome_trace"
version = "0.1.0"
edition = "2021"
publish = false

[dependencies]
thread-id = "*"
tokio-trace-core = "*"

[dev-dependencies]
serde_json = "*"
