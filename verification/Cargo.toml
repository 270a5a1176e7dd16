[package]
name = "gain"
version = "0.1.0"
edition = "2021"
publish = false

[dependencies]
async-task = "3.0"
bincode = "1"
flatbuffers = "*"
futures-channel = "0.3"
futures-util = "0.3"
lazy_static = "1.4"
serde = { version = "1", features = ["derive"] }
