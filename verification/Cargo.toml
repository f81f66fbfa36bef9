[package]
name = "jaeger_proxy"
version = "0.1.0"
edition = "2021"
publish = false

[dependencies]
chrono = "=0.4.45"
log = "=0.4.34"
serde = { version = "*", features = ["derive"] }
serde_json = "=1.0.151"
surf = "=2.3.2"
tide = "=0.16.0"
async-std = { version = "=1.13.2", features = ["attributes"] }
structopt = "=0.3.26"
env_logger = "=0.11.11"
async-log = "=2.0.0"
