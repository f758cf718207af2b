[package]
name = "wortlaut"
version = "0.1.0"
edition = "2021"
publish = false

[dependencies]
serde = { version = "1", features = ["derive"] }
thiserror = "1"
hound = "3"
whisper-rs = "0.14"
tauri = { version = "2", default-features = false }
