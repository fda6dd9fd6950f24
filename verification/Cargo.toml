[package]
name = "lockedin"
version = "0.1.0"
edition = "2021"
publish = false

[dependencies]
time = { version = "0.3", default-features = false }
soroban-sdk = { version = "23" }
