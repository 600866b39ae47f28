[package]
name = "mempill-core"
version = "0.3.0"
edition = "2021"
publish = false

[dependencies]
chrono = "0.4"
serde_json = "1"
thiserror = "2"
tokio = { version = "1", features = ["rt", "sync"] }
uuid = { version = "1", features = ["v4"] }
