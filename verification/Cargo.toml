[package]
name = "kv_router"
version = "0.1.0"
edition = "2021"
publish = false

[dependencies]
anyhow = "1"
arc-swap = "1"
dashmap = "6"
futures = "0.3"
parking_lot = "0.12"
prometheus = { version = "0.14", default-features = false }
rand = "0.9"
serde_json = "1"
tokio = { version = "1", features = ["macros", "rt", "sync", "time"] }
tokio-util = "0.7"
tracing = "0.1"
