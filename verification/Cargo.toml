[package]
name = "tauri_manager"
version = "0.1.0"
edition = "2021"
publish = false

[dependencies]
percent-encoding = "2.1"
serde = { version = "1.0", features = ["derive"] }
serde_json = "1.0"
uuid = { version = "0.8", features = ["v4"] }
