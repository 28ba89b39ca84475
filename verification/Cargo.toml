[package]
name = "kafkalite"
version = "0.1.0"
edition = "2021"
publish = false

[dependencies]
base64 = "0.22"
rdkafka = "*"
rusqlite = "*"
serde = { version = "1", features = ["derive"] }
serde_json = "1"
thiserror = "*"
tokio = { version = "1", features = ["rt-multi-thread", "time", "sync", "macros"] }
tracing-subscriber = { version = "0.3", features = ["env-filter"] }
uuid = { version = "1", features = ["v4"] }
