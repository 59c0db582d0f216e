[package]
name = "wimlam"
version = "0.1.0"
edition = "2021"
publish = false

[dependencies]
color-eyre = "=0.6.5"
dirs = "=7.0.0"
ratatui = "=0.30.2"
serde = { version = "=1.0.229", features = ["derive"] }
serde_json = { version = "=1.0.154", features = ["preserve_order"] }
sysinfo = "=0.39.6"
thiserror = "=2.0.21"
win-hotkeys = "=0.5.1"
windows = { version = "=0.60.0", features = ["Win32_Foundation", "Win32_Graphics_Gdi", "Win32_System_Console", "Win32_UI_WindowsAndMessaging"] }
