[package]
name = "yuha_core"
version = "0.1.0"
edition = "2021"
publish = false

[dependencies]
bytes = "*"
serde = { version = "*", features = ["derive"] }
tokio = { version = "*", features = ["io-util", "net"] }
tracing = "*"
