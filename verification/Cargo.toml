[package]
name = "localcoin"
version = "0.1.0"
edition = "2021"
publish = false

[dependencies]
soroban-sdk = { version = "=20.5.0", features = ["testutils"] }
soroban-token-sdk = "=20.5.0"
derive_arbitrary = "=1.3.2"
