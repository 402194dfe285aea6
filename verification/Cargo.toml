[package]
name = "dropnote"
version = "0.1.0"
edition = "2021"
publish = false

[dependencies]
anyhow = "1"
chrono = "0.4"
dirs = "5"
regex = "1"
rusqlite = { version = "*", features = ["bundled"] }
global-hotkey = "*"
tray-icon = "*"
raw-window-handle = "0.6"
windows-sys = { version = "*", features = ["Win32_Foundation", "Win32_UI_WindowsAndMessaging"] }
