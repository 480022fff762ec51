[package]
name = "whisper_stt"
version = "0.1.0"
edition = "2021"
publish = false

[dependencies]
reqwest = "=0.13.5"
rubato = "=5.0.1"
symphonia = { version = "=0.6.1", features = ["all"] }
whisper-rs = "=0.16.0"
