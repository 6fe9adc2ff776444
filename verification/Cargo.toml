[package]
name = "theway-daemon"
version = "0.1.0"
edition = "2021"
publish = false

[dependencies]
anyhow = "1"
async-trait = "0.1"
base64 = "0.22"
chrono = "0.4"
clap = { version = "4", features = ["derive"] }
fs4 = "*"
futures = "0.3"
hex = "0.4"
ignore = "0.4"
opentelemetry = "*"
opentelemetry-otlp = "*"
opentelemetry_sdk = "*"
parking_lot = "0.12"
prometheus = "*"
regex = "1"
reqwest = { version = "*", default-features = false, features = ["json"] }
rmcp = { version = "*", features = ["server", "transport-io"] }
serde = { version = "1", features = ["derive"] }
serde_json = "1"
serde_yaml = "0.9"
sha2 = "0.10"
strum = { version = "*", features = ["derive"] }
tokio = { version = "1", features = ["full"] }
tokio-util = "0.7"
toml = "*"
tracing = "0.1"
uuid = { version = "1", features = ["v4"] }
