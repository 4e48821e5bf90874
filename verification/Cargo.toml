[package]
name = "windmill"
version = "0.1.0"
edition = "2021"
publish = false

[dependencies]
serde_json = "1"
serde = { version = "1", features = ["derive"] }
http-types = { version = "2", default-features = false }
async-std = "1"
async-h1 = "2"
