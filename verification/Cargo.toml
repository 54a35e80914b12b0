[package]
name = "indexer_service"
version = "0.1.0"
edition = "2021"
publish = false

[dependencies]
uuid = { version = "*", features = ["v4"] }
tokio = { version = "*", features = ["macros", "rt-multi-thread", "process", "time", "sync", "io-util"] }
axum = { version = "*", features = ["multipart"] }
serde_json = "*"
