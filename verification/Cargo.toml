[package]
name = "transcoder_core"
version = "0.1.0"
edition = "2021"
publish = false

[dependencies]
anyhow = "1"
async-stream = "0.3"
async-trait = "0.1"
axum = { version = "0.7", default-features = false, features = ["json", "tokio"] }
chrono = { version = "0.4", default-features = false, features = ["clock"] }
serde = { version = "1", features = ["derive"] }
serde_json = "1"
tokio = { version = "1", features = ["sync", "rt"] }
tonic = { version = "0.12", default-features = false }
tracing = "0.1"
uuid = { version = "1", features = ["v4"] }
