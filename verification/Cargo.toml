[package]
name = "proot"
version = "0.1.0"
edition = "2021"
publish = false

[dependencies]
anyhow = "1"
clap = { version = "4", features = ["derive"] }
colored = "2"
env_logger = "*"
log = "0.4"
serde_json = "1"
