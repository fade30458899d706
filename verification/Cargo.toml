[package]
name = "simple_lancedb"
version = "0.1.0"
edition = "2021"
publish = false

[dependencies]
serde_json = "1"
arrow-array = "*"
arrow-ipc = "*"
arrow-schema = "*"
tokio = { version = "1", features = ["rt-multi-thread"] }
tokio-stream = "*"
log = "0.4"
env_logger = "*"
libc = "0.2"
