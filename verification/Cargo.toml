[package]
name = "taurus"
version = "0.1.0"
edition = "2021"
publish = false

[dependencies]
regex = "=1.13.1"
chrono = "=0.4.45"
serde = { version = "=1.0.229", features = ["derive"] }
serde_json = "=1.0.154"
tokio = { version = "=1.54.1", features = ["full"] }
tokio-stream = "=0.1.19"
futures = "=0.3.34"
warp = "=0.3.7"
uuid = { version = "=0.8.2", features = ["v4"] }
notify = "=4.0.18"
sysinfo = "=0.29.11"
log = "=0.4.34"
rcon-rs = "=0.1.0"
rcon = { version = "*", features = ["rt-tokio"] }
