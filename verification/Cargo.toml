[package]
name = "ardeck_plugin"
version = "0.1.0"
edition = "2021"
publish = false

[dependencies]
chrono = "*"
fern = "*"
futures-util = "*"
log = "*"
serde = { version = "*", features = ["derive"] }
serde_json = "*"
tokio = { version = "*", features = ["rt-multi-thread", "macros", "net", "fs", "sync", "time"] }
tokio-tungstenite = "*"
