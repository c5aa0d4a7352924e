[package]
name = "mining_pool"
version = "0.1.0"
edition = "2021"
publish = false

[dependencies]
sha2 = "0.10"
hmac = "0.12"
serde = { version = "1", features = ["derive"] }
tokio = { version = "1", features = ["sync", "rt", "macros"] }
calimero-sdk = "*"
calimero-storage = "*"
