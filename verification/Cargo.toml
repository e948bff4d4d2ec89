[package]
name = "pomodoro"
version = "0.1.0"
edition = "2021"
publish = false

[dependencies]
chrono = "0.4"
serde = { version = "1", features = ["derive"] }
serde_json = "1"
directories = "*"
rustix = { version = "*", features = ["fs"] }
fs4 = "*"
windows-sys = "*"
tauri-winrt-notification = "*"

[dev-dependencies]
tempfile = "3"
