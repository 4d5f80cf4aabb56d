[package]
name = "nano_raffle"
version = "0.1.0"
edition = "2021"
publish = false

[dependencies]
blake2b_simd = "*"
tokio = { version = "=1.53.2", features = ["rt", "time", "macros", "sync", "net"] }
axum = "=0.8.9"
serde = { version = "=1.0.229", features = ["derive"] }
serde_json = "=1.0.151"
anyhow = "=1.0.104"
log = "=0.4.34"
env_logger = "=0.11.11"
rand = "=0.8.8"
