[package]
name = "asdf_gui"
version = "0.1.0"
edition = "2021"
publish = false

[dependencies]
dirs = "6"
serde = { version = "1", features = ["derive"] }
serde_json = "1"
thiserror = "2"
tokio = { version = "1", features = ["process", "io-util", "rt", "macros"] }
tauri = { version = "2", default-features = false, features = ["wry"] }
