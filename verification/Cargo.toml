[package]
name = "oracle_intent"
version = "0.1.0"
edition = "2021"
publish = false

[dependencies]
near-sdk = { version = "=5.29.1", features = ["legacy", "non-contract-usage"] }
