[package]
name = "minibit"
version = "0.1.0"
edition = "2021"
publish = false

[dependencies]
bevy_ecs = "=0.11.3"
clap = { version = "=4.6.7", features = ["derive", "cargo"] }
figment = { version = "=0.10.19", features = ["yaml", "env"] }
opentelemetry = "=0.33.1"
opentelemetry-otlp = "=0.33.1"
opentelemetry_sdk = "=0.33.1"
serde = { version = "=1.0.229", features = ["derive"] }
tracing = "=0.1.44"
tracing-opentelemetry = "=0.34.0"
tracing-subscriber = "=0.3.23"
valence = "=0.2.0-alpha.1"
