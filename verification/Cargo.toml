[package]
name = "rainconfig"
version = "0.1.0"
edition = "2021"
publish = false

[dependencies]
alloy-primitives = { version = "*", default-features = false, features = ["std"] }
anyhow = "1"
serde = { version = "1", features = ["derive"] }
serde_bytes = "0.11"
serde_json = "1"
