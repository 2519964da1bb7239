[package]
name = "chute"
version = "0.1.0"
edition = "2021"
publish = false

[dependencies]
open = "=5.4.5"
serde = { version = "=1.0.229", features = ["derive"] }
tauri = { version = "=2.12.5", default-features = false }
tauri-plugin-global-shortcut = "=2.4.1"
global-hotkey = "=0.8.0"
