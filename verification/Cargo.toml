[package]
name = "pylade_clicker"
version = "0.1.0"
edition = "2021"
publish = false

[dependencies]
rand = "=0.8.8"
dirs = "=5.0.1"
rdev = "=0.5.3"
windows = { version = "=0.52.0", features = ["Win32_Foundation", "Win32_UI_WindowsAndMessaging"] }

[dev-dependencies]
serde_json = "=1.0.151"
