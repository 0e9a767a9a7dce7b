[package]
name = "murmer_server"
version = "0.1.0"
edition = "2021"
publish = false

[dependencies]
anyhow = "=1.0.104"
axum = { version = "=0.8.9", features = ["ws", "multipart"] }
base64 = "=0.23.1"
chrono = "=0.4.45"
dotenvy = "=0.15.7"
ed25519-dalek = "=3.0.0"
futures = "=0.3.34"
sanitize-filename = "=0.6.0"
serde = { version = "=1.0.229", features = ["derive"] }
serde_json = "=1.0.151"
subtle = "=2.6.1"
tokio = { version = "=1.53.2", features = ["full"] }
tokio-postgres = "=0.7.18"
tower = "=0.5.3"
tower-http = { version = "=0.7.1", features = ["cors", "fs", "set-header", "trace"] }
tracing = "=0.1.44"
tracing-subscriber = { version = "=0.3.23", features = ["env-filter"] }
