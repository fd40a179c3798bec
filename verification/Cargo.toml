[package]
name = "font_fallback_test"
version = "0.1.0"
edition = "2021"
publish = false

[dependencies]
windows = { version = "0.52", features = ["Win32_Foundation", "Win32_Graphics_Gdi", "Win32_System_LibraryLoader", "Win32_System_Registry", "Win32_UI_Controls", "Win32_UI_WindowsAndMessaging"] }
