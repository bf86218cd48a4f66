[package]
name = "bridge_codec"
version = "0.1.0"
edition = "2021"
publish = false

[dependencies]
hex = "=0.4.3"
serde = { version = "=1.0.229", features = ["derive"] }
serde_json = "=1.0.151"
near-sdk = { version = "=5.29.1", features = ["non-contract-usage"] }
