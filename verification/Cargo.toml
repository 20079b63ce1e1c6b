[package]
name = "premium"
version = "0.1.0"
edition = "2021"
publish = false

[dependencies]
anyhow = "*"
async-std = { version = "*", features = ["attributes"] }
calamine = "*"
chrono = "*"
env_logger = "*"
log = "*"
redis = "*"
serde = { version = "*", features = ["derive"] }
serde_json = "*"
thiserror = "*"
tide = "*"
