[package]
name = "datadog-tracing"
version = "0.2.1"
edition = "2021"
publish = false

[dependencies]
axum = "0.7"
axum-tracing-opentelemetry = "0.16"
chrono = "0.4"
futures-util = "0.3"
http = "1"
opentelemetry = "0.21"
opentelemetry-datadog = { version = "0.9", features = ["reqwest-client"] }
opentelemetry_sdk = { version = "0.21", features = ["rt-tokio"] }
pin-project-lite = "0.2"
reqwest = { version = "0.11", default-features = false }
serde = { version = "1", features = ["derive"] }
serde_json = "1"
tokio = { version = "1", features = ["macros", "rt-multi-thread", "signal"] }
tower = "0.4"
tracing = "0.1"
tracing-appender = "0.2"
tracing-opentelemetry = "0.22"
tracing-opentelemetry-instrumentation-sdk = "0.16"
tracing-serde = "0.1"
tracing-subscriber = { version = "0.3", features = ["env-filter", "fmt", "json"] }
