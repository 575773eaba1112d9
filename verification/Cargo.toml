[package]
name = "kv-router"
version = "0.1.0"
edition = "2021"
publish = false

[dependencies]
anyhow = "1"
async-trait = "0.1"
rand = "0.9"
rustc-hash = "2"
serde = { version = "1", features = ["derive"] }
serde_json = "1"
tokio = { version = "1", features = ["sync", "fs", "io-util", "rt"] }
tracing = "0.1"
