[package]
name = "locaryn-plugin-voice-tts"
version = "0.1.0"
edition = "2021"
publish = false

[dependencies]
serde = { version = "1", features = ["derive"] }
serde_json = "1"
tokio = { version = "1", features = ["rt-multi-thread", "macros", "process", "io-util", "io-std"] }
uuid = { version = "1", features = ["v4"] }
