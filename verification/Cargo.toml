[package]
name = "pylos"
version = "0.1.0"
edition = "2021"
publish = false

[dependencies]
rand = "0.8"
chrono = { version = "0.4", features = ["serde"] }
uuid = { version = "1", features = ["v4"] }
serde = { version = "1", features = ["derive"] }
serde_json = "1"
serde_repr = "0.1"
tokio = { version = "1", features = ["full"] }
tokio-stream = "0.1"
warp = "0.3"
futures = "0.3"
http = "0.2"
log = "0.4"
env_logger = "0.11"
