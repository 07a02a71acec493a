[package]
name = "sync_relay"
version = "0.1.0"
edition = "2021"
publish = false

[dependencies]
dashmap = "*"
tokio = { version = "*", features = ["full"] }
tokio-tungstenite = "*"
tokio-stream = { version = "*", features = ["net"] }
futures-util = "*"
futures-channel = "*"
serde = { version = "*", features = ["derive"] }
serde_json = "*"
real-ip = "*"
