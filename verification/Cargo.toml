[package]
name = "lst"
version = "0.1.0"
edition = "2021"
publish = false

[dependencies]
near-sdk = { version = "=5.29.1", features = ["non-contract-usage"] }
near-contract-standards = "=5.29.1"
near-plugins = "=0.5.3"
uint = { version = "=0.10.2", default-features = false }
