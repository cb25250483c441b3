[package]
name = "wisper_core"
version = "0.1.0"
edition = "2021"
publish = false

[dependencies]
regex = "1"
serde = { version = "1", features = ["derive"] }
serde_json = "1"
chrono = { version = "0.4", features = ["serde"] }
reqwest = { version = "0.12", default-features = false, features = ["json", "stream", "rustls-tls"] }
tokio = { version = "1", features = ["rt", "rt-multi-thread", "time", "fs", "io-util", "sync"] }
futures-util = "0.3"
log = "0.4"
env_logger = "0.11"
