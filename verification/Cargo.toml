[package]
name = "yt_dlp_downloader"
version = "0.1.0"
edition = "2021"
publish = false

[dependencies]
regex = "1"
serde = { version = "1", features = ["derive"] }
serde_json = "1"
tokio = { version = "1", features = ["process", "io-util", "rt"] }
dirs = "6"
libc = "0.2"
tauri = { version = "2", default-features = false, features = ["wry"] }
tauri-plugin-dialog = "2"
