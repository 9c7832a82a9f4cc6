[package]
name = "smarthome_ingest"
version = "0.1.0"
edition = "2021"
publish = false

[dependencies]
anyhow = "1"
axum = "0.8"
bincode = "=1.3.3"
bytes = "1"
chrono = "=0.4.45"
jsonschema = { version = "0.37", default-features = false }
metrics = "0.24"
metrics-exporter-prometheus = { version = "0.18", default-features = false, features = ["http-listener"] }
reqwest = { version = "=0.12.28", default-features = false }
rumqttc = { version = "0.25", default-features = false }
secrecy = "=0.8.0"
serde = { version = "1", features = ["derive"] }
serde_json = "=1.0.154"
tokio = { version = "1", features = ["full"] }
tokio-stream = { version = "0.1", features = ["sync"] }
tracing = "0.1"
tracing-subscriber = { version = "0.3", features = ["env-filter", "json"] }
urlencoding = "=2.1.3"
