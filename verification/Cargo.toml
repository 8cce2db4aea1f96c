[package]
name = "utterance_capture"
version = "0.1.0"
edition = "2021"
publish = false

[dependencies]
hound = "3.5"
chrono = "0.4"
dotenv = "0.15"
tokio = { version = "1", features = ["rt", "rt-multi-thread"] }
openai-api-rs = "=5.0.14"
elevenlabs-api = "*"
