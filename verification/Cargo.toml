[package]
name = "sigchain"
version = "0.1.0"
edition = "2021"
publish = false

[dependencies]
multihash = "=0.11.4"
serde = { version = "=1.0.229", features = ["derive"] }
serde_json = "=1.0.151"
