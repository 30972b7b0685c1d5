[package]
name = "cerberus"
version = "0.1.0"
edition = "2021"
publish = false

[dependencies]
anyhow = "=1.0.104"
env_logger = "=0.11.11"
log = "=0.4.34"
reqwest = { version = "=0.13.5", default-features = false, features = ["form"] }
serde = { version = "=1.0.229", features = ["derive"] }
serde_json = "=1.0.151"
serialport = { version = "=4.10.1", default-features = false }
tokio = { version = "=1.53.2", features = ["full"] }
tokio-util = "=0.7.19"
warp = { version = "=0.4.3", features = ["server"] }
