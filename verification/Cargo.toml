[package]
name = "kitowall_bridge"
version = "0.1.0"
edition = "2021"
publish = false

[dependencies]
serde_json = "1"
thiserror = "2"
rfd = { version = "0.15", default-features = false }
tauri = { version = "2", default-features = false }
