[package]
name = "fungible_ledger"
version = "0.1.0"
edition = "2021"
publish = false

[dependencies]
serde_json = "1"
near-sdk = { version = "4", default-features = false }
