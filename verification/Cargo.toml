[package]
name = "neko-control-center"
version = "0.1.0"
edition = "2021"
publish = false

[dependencies]
serde = { version = "1", features = ["derive"] }
serde_json = "1"
chrono = "0.4"
reqwest = { version = "0.12", default-features = false, features = ["json"] }
zip = { version = "2", default-features = false, features = ["deflate"] }
open = "5"
tauri = { version = "2", default-features = false }
winreg = "0.55"
