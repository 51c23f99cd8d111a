[package]
name = "env_tcp_logger"
version = "0.1.0"
edition = "2021"
publish = false

[dependencies]
log = "0.4"
env_logger = "*"

[dev-dependencies]
serde_json = "1"
