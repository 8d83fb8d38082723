[package]
name = "rapace_core"
version = "0.1.0"
edition = "2021"
publish = false

[dependencies]
futures = "0.3"
tokio = { version = "1", features = ["io-util", "sync", "rt", "macros"] }
tokio-tungstenite = "*"
