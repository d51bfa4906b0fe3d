[package]
name = "mru_decode"
version = "0.1.0"
edition = "2021"
publish = false

[dependencies]
winapi = { version = "0.3", features = ["minwinbase"] }
windows = { version = "*", features = ["Win32_System_Com", "Win32_UI_Shell", "Win32_UI_Shell_Common"] }
winreg = "*"
