[package]
name = "doit"
version = "0.1.0"
edition = "2021"
publish = false

[dependencies]
base64 = "=0.22.1"
chrono = "0.4"
serde = { version = "1", features = ["derive"] }
serde_json = "1"
futures = "0.3"
tokio = { version = "1", features = ["rt-multi-thread"] }
gpui-pre-reqwest = { version = "*", default-features = false, features = ["rustls-tls"] }
