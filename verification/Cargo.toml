[package]
name = "quiclime"
version = "0.1.0"
edition = "2021"
publish = false

[dependencies]
axum = "0.8"
axum-client-ip = "1"
clickhouse = { version = "0.13", features = ["inserter", "time"] }
env_logger = "0.11"
eyre = "0.6"
log = "0.4"
parking_lot = "0.12"
quinn = "0.11"
reqwest = { version = "0.12", default-features = false, features = ["json", "rustls-tls"] }
rustls-pki-types = { version = "1", features = ["std"] }
serde = { version = "1", features = ["derive"] }
serde_json = "1"
time = "0.3"
tokio = { version = "1", features = ["full"] }
