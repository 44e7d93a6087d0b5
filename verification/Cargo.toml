[package]
name = "blog_manager"
version = "0.1.0"
edition = "2021"
publish = false

[dependencies]
regex = "1"
chrono = { version = "0.4", default-features = false, features = ["clock"] }
serde = { version = "1", features = ["derive"] }
log = "0.4"
tauri = { version = "2", default-features = false, features = ["wry"] }
tauri-plugin-store = "2"
