[package]
name = "fastly-compute-otel"
version = "0.1.0"
edition = "2021"
publish = false

[dependencies]
base64 = "0.22"
serde_json = "1"
serde = { version = "1", features = ["derive"] }
thiserror = "2"
opentelemetry = "0.30"
opentelemetry_sdk = "0.30"
fastly = "0.11"
