[package]
name = "peersend_protocol"
version = "0.1.0"
edition = "2021"
publish = false

[dependencies]
aes-gcm = "=0.10.3"
sha2 = "=0.10.9"
base64 = "=0.22.1"
rand = "=0.8.8"
zeroize = "=1.9.1"
uuid = { version = "=1.29.0", features = ["v4"] }
serde = { version = "=1.0.229", features = ["derive"] }
serde_json = "=1.0.154"
tokio = { version = "=1.54.1", features = ["fs", "io-util", "sync", "rt", "rt-multi-thread", "macros", "time"] }
reqwest = { version = "=0.12.28", default-features = false }
hostname = "=0.4.2"
unicode-width = "0.2"
