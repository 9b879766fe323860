[package]
name = "goose"
version = "0.1.0"
edition = "2021"
publish = false

[dependencies]
anyhow = "1"
base64 = "0.22"
serde_json = "1"
serde_yaml = "0.9"
tokio = { version = "1", features = ["rt", "macros"] }
tracing = "0.1"
