[package]
name = "orbien"
version = "0.1.0"
edition = "2021"
publish = false

[dependencies]
anyhow = "1"
async-trait = "0.1"
axum = "0.8"
base64 = "0.22"
chrono = "0.4"
hostname = "0.4"
httparse = "1"
rustls = { version = "0.23", default-features = false, features = ["std"] }
serde = { version = "1", features = ["derive"] }
socket2 = { version = "0.5", features = ["all"] }
tokio = { version = "1", features = ["full"] }
tokio-rustls = { version = "0.26", default-features = false }
tokio-util = { version = "0.7", features = ["compat"] }
toml = "0.8"
tracing = "0.1"
uuid = { version = "1", features = ["v4"] }
yamux = "0.13"
