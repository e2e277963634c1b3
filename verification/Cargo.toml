[package]
name = "binky"
version = "0.1.0"
edition = "2021"
publish = false

[dependencies]
serde = { version = "1", features = ["derive"] }
serde_json = "1"
serde_bytes = "0.11"
postcard = { version = "1", features = ["use-std"] }
rand = "0.8"
flume = "0.11"
tokio = { version = "1", features = ["full"] }
thiserror = "1"
