[package]
name = "taktwerk"
version = "0.1.0"
edition = "2021"
publish = false

[dependencies]
axum = "0.7"
cpal = "0.15"
libc = "0.2"
mdns-sd = "0.11"
serde = { version = "1", features = ["derive"] }
serde_json = "1"
socket2 = { version = "0.5", features = ["all"] }
tokio = { version = "1", features = ["full"] }
toml = "0.8"
tracing = "0.1"
tracing-appender = "0.2"
tracing-subscriber = { version = "0.3", features = ["env-filter"] }
