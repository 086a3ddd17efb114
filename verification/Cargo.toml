[package]
name = "match_core"
version = "0.1.0"
edition = "2021"
publish = false

[dependencies]
uuid = { version = "1", features = ["v4"] }
chrono = "0.4"
serde = { version = "1", features = ["derive"] }
serde_json = "1"
thiserror = "2"
anyhow = "1"
tokio = { version = "1", features = ["full"] }
tracing = "0.1"
tracing-subscriber = "0.3"
dotenvy = "0.15"
ordered-float = "5"
config = "0.15"
async-nats = "0.42"
metrics = "0.24"
metrics-exporter-prometheus = "0.17"
once_cell = "1"
tonic = "0.14"
prost = "0.14"
