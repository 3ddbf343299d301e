[package]
name = "swink_agent"
version = "0.1.0"
edition = "2021"
publish = false

[dependencies]
serde = { version = "1", features = ["derive"] }
serde_json = "1"
tokio = { version = "1", features = ["sync", "rt", "rt-multi-thread", "macros", "time"] }
tokio-util = "0.7"
tokio-stream = "0.1"
futures = "0.3"
chrono = { version = "0.4", default-features = false, features = ["clock", "std"] }
toml = "*"
rand = "*"
schemars = "*"
tracing = "0.1"
tracing-subscriber = { version = "0.3", features = ["registry"] }
opentelemetry = "*"
opentelemetry_sdk = "*"
opentelemetry-otlp = { version = "*", features = ["grpc-tonic"] }
tracing-opentelemetry = "*"
