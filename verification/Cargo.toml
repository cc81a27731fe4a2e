[package]
name = "ws_messaging"
version = "0.1.0"
edition = "2021"
publish = false

[dependencies]
serde_json = "*"
tokio = { version = "*", features = ["full"] }
tokio-tungstenite = "*"
axum = { version = "*", features = ["ws"] }
futures = "*"
url = "*"
uuid = { version = "*", features = ["v4"] }
anyhow = "*"
bytes = "*"
