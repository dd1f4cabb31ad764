[package]
name = "rbatis"
version = "0.1.0"
edition = "2021"
publish = false

[dependencies]
num-traits = "0.2"
uuid = "1"
serde = { version = "1", features = ["derive"] }
serde_json = "1"
async-std = "1"
lazy_static = "1"
