[package]
name = "disk_usage"
version = "0.1.0"
edition = "2021"
publish = false

[dependencies]
rayon = "1"
serde = { version = "1", features = ["derive"] }
tauri = { version = "*", default-features = false }
walkdir = "2"
