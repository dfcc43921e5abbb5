[package]
name = "tts_relay"
version = "0.1.0"
edition = "2021"
publish = false

[dependencies]
base64 = "0.22"
chrono = "0.4"
futures-util = "0.3"
hound = "3.5"
hyper = { version = "0.14", features = ["server", "http1", "tcp", "stream"] }
reqwest = { version = "0.11", default-features = false, features = ["json", "stream", "rustls-tls"] }
serde = { version = "1", features = ["derive"] }
serde_json = "1"
symphonia = { version = "0.5", features = ["mp3"] }
tokio = { version = "1", features = ["rt-multi-thread", "macros", "net", "time", "sync"] }
uuid = { version = "1", features = ["v4"] }
