[package]
name = "coffeetap"
version = "0.1.0"
edition = "2021"
publish = false

[dependencies]
anyhow = "1"
clap = { version = "4", features = ["derive", "env"] }
rusqlite = { version = "*", features = ["bundled"] }
serde_json = "1"
solana-sdk = "2"
tracing-subscriber = { version = "0.3", features = ["env-filter"] }
