[package]
name = "funding_rate"
version = "0.1.0"
edition = "2021"
publish = false

[dependencies]
dashmap = "*"
serde_json = "*"
serde = { version = "*", features = ["derive"] }
tokio = { version = "*", features = ["rt-multi-thread", "macros", "time"] }
tokio-tungstenite = "*"
futures-util = "*"
log = "*"
env_logger = "*"
toml = "*"
