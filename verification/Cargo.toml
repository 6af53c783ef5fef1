[package]
name = "camhack"
version = "0.1.0"
edition = "2021"
publish = false

[dependencies]
rand = "=0.8.8"
anyhow = "=1.0.104"
tokio = { version = "=1.54.1", features = ["full"] }
serde = { version = "=1.0.229", features = ["derive"] }
serde_json = "=1.0.154"
bincode = "=1.3.3"
openraft = { version = "=0.9.25", features = ["serde"] }
axum = { version = "=0.7.9", features = ["ws"] }
tower-http = { version = "=0.5.2", features = ["cors", "fs"] }
reqwest = { version = "=0.12.28", default-features = false, features = ["json"] }
futures-util = "=0.3.34"
tokio-tungstenite = "=0.21.0"
