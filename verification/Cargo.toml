[package]
name = "magnolia"
version = "0.1.0"
edition = "2021"
publish = false

[dependencies]
serde = { version = "*", features = ["derive"] }
serde_json = "*"
sha2 = "*"
md5 = "*"
base64 = "*"
anyhow = "*"
tokio = { version = "*", features = ["full"] }
tokio-util = { version = "*", features = ["io"] }
axum = "*"
tower-http = { version = "*", features = ["cors"] }
librqbit = "*"
ffmpeg-sidecar = "*"
