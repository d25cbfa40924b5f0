[package]
name = "transcription_core"
version = "0.1.0"
edition = "2021"
publish = false

[dependencies]
serde = { version = "=1.0.229", features = ["derive"] }
hound = "=3.5.1"
symphonia = "=0.5.5"
rubato = "=0.16.2"
transcribe-rs = "=0.3.12"
