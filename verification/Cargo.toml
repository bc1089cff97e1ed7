[package]
name = "rasgb"
version = "0.1.0"
edition = "2021"
publish = false

[dependencies]
anyhow = "1"
axum = "0.8"
base64 = "0.22"
image = "*"
rpi-led-matrix = "*"
serde = { version = "1", features = ["derive"] }
thiserror = "*"
tokio = { version = "1", features = ["full"] }
tokio-util = "0.7"
toml = "*"
tower-http = { version = "*", features = ["decompression-gzip", "decompression-deflate", "decompression-br"] }
viuer = "*"
