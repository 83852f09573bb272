[package]
name = "http_harness"
version = "0.1.0"
edition = "2021"
publish = false

[dependencies]
anyhow = "*"
auto-future = "*"
cookie = "*"
hyper = { version = "0.14", features = ["client", "http1", "tcp"] }
serde = "*"
serde_json = "*"
