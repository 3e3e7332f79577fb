[package]
name = "breeze_shell"
version = "0.1.0"
edition = "2021"
publish = false

[dependencies]
accesskit = "=0.25.2"
windows-sys = { version = "=0.61.2", features = ["Win32_Foundation", "Win32_System_Registry", "Win32_System_DataExchange", "Win32_System_Memory", "Win32_System_Ole", "Win32_UI_WindowsAndMessaging"] }
image = { version = "=0.25.10", default-features = false, features = ["png"] }

[dev-dependencies]
serde_json = "=1.0.154"
