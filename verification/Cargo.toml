[package]
name = "bililive"
version = "0.1.0"
edition = "2021"
publish = false

[dependencies]
brotli = "*"
serde_json = "*"
serde = { version = "*", features = ["derive"] }
log = "*"
reqwest = { version = "*", default-features = false }
tokio = { version = "*", features = ["rt-multi-thread", "macros", "time", "sync", "net"] }
tokio-tungstenite = "*"
futures-util = "*"
