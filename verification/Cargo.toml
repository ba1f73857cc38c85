[package]
name = "device_shell"
version = "0.1.0"
edition = "2021"
publish = false

[dependencies]
base64 = "0.22"
regex = "1"
uuid = { version = "1", features = ["v4"] }
chrono = "0.4"
serde = { version = "1", features = ["derive"] }
serde_json = "1"
axum = "0.7"
tokio = { version = "1", features = ["full"] }
tokio-stream = { version = "0.1", features = ["sync"] }
tower-http = { version = "0.5", features = ["cors"] }
futures = "0.3"
async-trait = "0.1"
log = "0.4"
env_logger = "0.11"
anyhow = "1"
once_cell = "1"
hidapi = "2"
serialport = "4"
