[package]
name = "volcengine_status"
version = "0.1.0"
edition = "2021"
publish = false

[dependencies]
chrono = "0.4"
serde = { version = "1", features = ["derive"] }
serde_json = "1"
tokio = { version = "1", features = ["process", "time"] }
parking_lot = "0.12"
log = "0.4"
env_logger = { version = "0.11", default-features = false }
tauri = { version = "2", default-features = false, features = ["wry", "tray-icon", "macos-private-api"] }
