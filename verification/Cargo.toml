[package]
name = "cap_media"
version = "0.1.0"
edition = "2021"
publish = false

[dependencies]
anyhow = "1"
cpal = "=0.15.3"
ffmpeg-next = "=7.1.0"
ffmpeg-sys-next = "7.1"
cidre = "*"
tokio = { version = "1", features = ["macros", "rt-multi-thread"] }
