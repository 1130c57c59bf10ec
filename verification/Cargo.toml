[package]
name = "ai-agent"
version = "0.1.0"
edition = "2021"
publish = false

[dependencies]
cosmwasm-std = "=3.0.11"
cw-storage-plus = "=3.0.1"
injective-cosmwasm = "=0.3.7"
schemars = "=0.8.22"
serde = { version = "=1.0.229", features = ["derive"] }
serde_json = "=1.0.154"
sha2 = "=0.10.9"
