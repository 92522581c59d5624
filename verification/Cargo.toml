[package]
name = "kvm_manager"
version = "0.1.0"
edition = "2021"
publish = false

[dependencies]
uuid = { version = "=1.29.1", features = ["v4"] }
chrono = "=0.4.45"
serde = { version = "=1.0.229", features = ["derive"] }
serde_json = "=1.0.154"
virt = "=0.5.0"
rand = "=0.8.8"
tar = "=0.4.46"
dirs = "=7.0.0"
tokio = { version = "1", features = ["net", "sync", "rt-multi-thread", "io-util", "time"] }
tokio-tungstenite = "*"
futures-util = "0.3"
rusqlite = { version = "*", features = ["bundled"] }
portable-pty = "*"
