[package]
name = "wsl_interop"
version = "0.1.0"
edition = "2021"
publish = false

[dependencies]
anyhow = "1"
serde_json = "1"
tokio = { version = "1", features = ["sync", "fs", "rt"] }
