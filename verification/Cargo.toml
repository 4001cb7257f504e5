[package]
name = "media_proxy_rs"
version = "0.1.0"
edition = "2021"
publish = false

[dependencies]
ipnet = "=2.12.2"
iprange = "=0.6.7"
reqwest = { version = "=0.12.28", default-features = false, features = ["rustls-tls", "stream"] }
mailparse = "=0.18.0"
urlencoding = "=2.1.3"
image = { version = "=0.25.10", default-features = false }
axum = { version = "=0.8.9", features = ["multipart"] }
tokio = { version = "=1.54.1", features = ["full"] }
tokio-stream = "=0.1.19"
futures = "=0.3.34"
chrono = "=0.4.45"
serde = { version = "=1.0.229", features = ["derive"] }
serde_json = "=1.0.154"
fast_image_resize = "=5.5.0"

[dev-dependencies]
url = "=2.5.8"
