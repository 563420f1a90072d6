[package]
name = "keeper_secrets"
version = "0.1.0"
edition = "2021"
publish = false

[dependencies]
aes = "0.8"
aes-gcm = "0.10"
base64 = "0.22"
serde_json = { version = "1", features = ["raw_value"] }
