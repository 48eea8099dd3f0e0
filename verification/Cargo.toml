[package]
name = "dora_node_api"
version = "0.1.0"
edition = "2021"
publish = false

[dependencies]
arrow = { version = "=60.0.0", default-features = false }
flume = "=0.12.0"
shared_memory_extended = "=0.13.0"
uhlc = "*"
aligned-vec = "*"
serde = { version = "*", features = ["derive"] }
serde_yaml = "*"
serde_json = "*"
