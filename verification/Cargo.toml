[package]
name = "gausian_collab"
version = "0.1.0"
edition = "2021"
publish = false

[dependencies]
serde = { version = "=1.0.229", features = ["derive"] }
serde_json = "=1.0.154"
uuid = { version = "=1.29.0", features = ["v4", "serde"] }
chrono = { version = "=0.4.45", features = ["serde"] }
dashmap = "=5.5.3"
tokio = { version = "=1.54.1", features = ["rt-multi-thread", "macros", "sync", "net"] }
axum = { version = "=0.7.9", features = ["ws"] }
futures = "=0.3.34"
tracing = "=0.1.44"
tracing-subscriber = "=0.3.23"
anyhow = "=1.0.104"
url = "2"
urlencoding = "2"
