[package]
name = "hodlers"
version = "0.1.0"
edition = "2021"
publish = false

[dependencies]
stellar-xdr = { version = "22", features = ["curr", "std", "base64"] }
alloy-sol-types = "1"
alloy-primitives = "1"
serde = { version = "1", features = ["derive"] }
serde_json = "1"
anyhow = "1"
soroban-sdk = "22"
wit-bindgen = "0.41"
wasip2 = "1"
