[package]
name = "turbo_session"
version = "0.1.0"
edition = "2021"
publish = false

[dependencies]
turbo-genesis-abi = "=1.0.0"
turbo-genesis-sdk = "=5.2.1"
