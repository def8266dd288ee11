[package]
name = "minecraft_server"
version = "0.1.0"
edition = "2021"
publish = false

[dependencies]
bytes = "1"
serde = { version = "1", features = ["derive"] }
serde_json = "1"
thiserror = "1"
tokio = { version = "1", features = ["io-util", "macros", "net", "rt"] }
tracing = "0.1"
tracing-subscriber = "0.3"
uuid = "1"
