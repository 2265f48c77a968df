[package]
name = "openfront_client"
version = "0.1.0"
edition = "2021"
publish = false

[dependencies]
rand = "0.8"
uuid = { version = "1", features = ["v4"] }
serde = { version = "1", features = ["derive"] }
serde_json = "1"
tokio = { version = "1", features = ["full"] }
tokio-tungstenite = "0.21"
futures-util = "0.3"
once_cell = "1"
dirs = "5"
reqwest = { version = "0.12", default-features = false, features = ["rustls-tls"] }
