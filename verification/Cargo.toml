[package]
name = "gumicord"
version = "0.1.0"
edition = "2021"
publish = false

[dependencies]
base64 = "0.22"
futures-util = "0.3"
rsa = { version = "0.9", features = ["sha2"] }
rustls = "0.23"
serde = { version = "1", features = ["derive"] }
serde_json = "1"
sys-locale = "0.3"
thiserror = "2"
tokio = { version = "1", features = ["rt-multi-thread", "net", "time", "sync", "macros"] }
tokio-tungstenite = "0.26"
tracing = "0.1"
zstd = "0.13"
