[package]
name = "chatgpt_rs"
version = "0.1.0"
edition = "2021"
publish = false

[dependencies]
anyhow = "1"
dotenv = "0.15"
futures = "0.3"
hyper = { version = "0.14", features = ["full"] }
hyper-proxy = "0.9"
hyper-tls = "0.5"
tokio = { version = "1", features = ["full"] }
tokio-stream = "0.1"

[dev-dependencies]
serde_json = "1"
