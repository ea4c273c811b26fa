[package]
name = "paf_desktop"
version = "0.2.1"
edition = "2021"
publish = false

[dependencies]
serde = { version = "1", features = ["derive"] }
serde_json = "1"
tauri = { version = "2", default-features = false, features = ["unstable", "wry"] }
url = "2"
