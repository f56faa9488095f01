[package]
name = "screen_text_monitor"
version = "0.1.0"
edition = "2021"
publish = false

[dependencies]
image = "0.24"
screenshots = "0.8"
tesseract = "*"
anyhow = "1"
log = "0.4"
env_logger = "0.11"
serde = { version = "1", features = ["derive"] }
serde_json = "1"
