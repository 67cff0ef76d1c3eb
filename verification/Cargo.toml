[package]
name = "epoch_buckets"
version = "0.1.0"
edition = "2021"
publish = false

[dependencies]
ahash = "*"
blake3 = "*"
serde = { version = "*", features = ["derive"] }
serde_json = "*"
solana-sdk = { version = "*", default-features = false }
