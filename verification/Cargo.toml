[package]
name = "pricefeed"
version = "0.1.0"
edition = "2021"
publish = false

[dependencies]
chrono = "*"
tokio = { version = "*", features = ["rt-multi-thread", "macros", "time", "sync", "signal"] }
tokio-tungstenite = "*"
futures-util = "*"
url = "*"
redis = { version = "*", features = ["tokio-comp"] }
log = "*"
env_logger = "*"
anyhow = "*"
