[package]
name = "rustic-pixel-display"
version = "0.1.0"
edition = "2021"
publish = false

[dependencies]
uuid = { version = "=1.29.0", features = ["v4"] }
embedded-graphics = "=0.8.2"
anyhow = "=1.0.104"
log = "=0.4.34"
env_logger = "=0.10.2"
parking_lot = "=0.12.5"
serde = { version = "=1.0.229", features = ["derive"] }
serde_json = "=1.0.154"
serde_yaml = "=0.9.34"
rouille = "=3.6.2"
tokio = { version = "=1.54.1", features = ["rt-multi-thread", "macros", "signal", "time"] }
rpi-led-panel = "=0.9.1"
rpi-led-matrix = "=0.4.0"
weer_api = "*"
embedded-layout = "*"
tokio-util = "*"

[dev-dependencies]
heck = "=0.5.0"
