[package]
name = "xiaoai"
version = "0.1.0"
edition = "2021"
publish = false

[dependencies]
anyhow = "1"
tokio = { version = "1", features = ["rt-multi-thread", "macros", "net", "io-util", "io-std", "time", "sync", "process", "fs"] }
serde = { version = "1", features = ["derive"] }
serde_json = "1"
postcard = { version = "1", features = ["alloc"] }
opus = "0.3"
symphonia = { version = "0.5", features = ["mp3", "wav"] }
alsa = "0.9"
futures = "0.3"
native-tls = "0.2"
openssl = "0.10"
tokio-openssl = "0.6"
tokio-tungstenite = { version = "0.24", features = ["native-tls"] }
