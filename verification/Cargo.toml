[package]
name = "cascade"
version = "0.1.0"
edition = "2021"
publish = false

[dependencies]
xkbcommon = { version = "0.4", default-features = false }
serde = { version = "1", features = ["derive"] }
serde_yaml = "0.9"
shellexpand = "3"
regex = "1"
log = "0.4"
env_logger = "0.11"
