[package]
name = "oxana"
version = "0.1.0"
edition = "2021"
publish = false

[dependencies]
serde = { version = "=1.0.229", features = ["derive"] }
serde_json = "=1.0.154"
urlencoding = "=2.1.3"
prometheus-client = "=0.25.2"
sentry-core = { version = "=0.49.5", features = ["client"] }
tokio = { version = "=1.54.1", features = ["rt", "macros", "sync", "time", "signal"] }
tokio-util = "=0.7.20"
tracing = "=0.1.44"
futures = "=0.3.34"
axum = "=0.8.9"
syn = { version = "=2.0.119", features = ["full"] }
quote = "=1.0.47"
proc-macro2 = "=1.0.107"
proc-macro-error2 = "=2.0.1"
