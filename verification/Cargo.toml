[package]
name = "pow_server"
version = "0.1.0"
edition = "2021"
publish = false

[dependencies]
sha2 = "0.10"
serde = { version = "1", features = ["derive"] }
serde_json = "1"
tokio = { version = "1", features = ["rt-multi-thread", "net", "signal", "sync", "macros"] }
tokio-tungstenite = "*"
futures-util = "0.3"
config = "*"
tracing = "0.1"
tracing-subscriber = "0.3"
