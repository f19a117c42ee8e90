[package]
name = "turn_proxy"
version = "0.1.0"
edition = "2021"
publish = false

[dependencies]
anyhow = "1"
async-trait = "0.1"
bytes = "1"
clap = { version = "4", features = ["derive"] }
flume = "0.11"
futures-util = "0.3"
hickory-resolver = "0.25"
parking_lot = "0.12"
reqwest = { version = "0.12", default-features = false }
rustls = "0.23"
serde = { version = "1", features = ["derive"] }
tokio = { version = "1", features = ["full"] }
tokio-util = "0.7"
toml = "0.8"
tracing = "0.1"
webrtc-dtls = "0.12"
webrtc-util = "0.11"
