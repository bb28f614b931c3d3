[package]
name = "realingo"
version = "0.1.0"
edition = "2021"
publish = false

[dependencies]
serde = { version = "=1.0.229", features = ["derive"] }
serde_json = "=1.0.154"
base64 = "=0.22.1"
keyring = "=4.2.0"
anyhow = "=1.0.104"
tokio = { version = "=1.54.1", features = ["sync", "rt", "time", "macros"] }
tokio-tungstenite = "=0.30.0"
futures-util = "=0.3.34"
cpal = "=0.18.2"
symphonia = "=0.6.1"
