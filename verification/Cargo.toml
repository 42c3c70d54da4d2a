[package]
name = "treasury"
version = "0.1.0"
edition = "2021"
publish = false

[dependencies]
soroban-sdk = "*"

[dev-dependencies]
soroban-sdk = { version = "*", features = ["testutils"] }
