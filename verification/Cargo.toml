[package]
name = "voice_channels"
version = "0.1.0"
edition = "2021"
publish = false

[dependencies]
serde_json = "1"
base64 = "0.22"
hex = "0.4"
uuid = { version = "1", features = ["v4"] }
anyhow = "1"
async-trait = "0.1"
futures-util = "0.3"
parking_lot = "0.12"
reqwest = { version = "0.12", default-features = false, features = ["json", "rustls-tls"] }
serenity = { version = "0.12", default-features = false, features = ["client", "gateway", "model", "voice", "rustls_backend"] }
tokio = { version = "1", features = ["rt-multi-thread", "macros", "time", "sync", "process", "fs", "net"] }
tokio-tungstenite = "0.26"
tracing = "0.1"
