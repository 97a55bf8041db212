[package]
name = "aura"
version = "0.1.0"
edition = "2021"
publish = false

[dependencies]
urlencoding = "2"
encoding_rs = "0.8"
base64 = "0.22"
serde = { version = "1", features = ["derive"] }
serde_json = "1"
lofty = "*"
sysinfo = "*"
rodio = "*"
tokio = { version = "1", features = ["rt-multi-thread", "time"] }
reqwest = { version = "0.12", default-features = false, features = ["cookies", "rustls-tls"] }
