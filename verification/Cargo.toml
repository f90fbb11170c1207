[package]
name = "clipboard_core"
version = "0.1.0"
edition = "2021"
publish = false

[dependencies]
copypasta = { version = "*", default-features = false, features = ["x11"] }
log = "*"
winit = { version = "*", default-features = false, features = ["rwh_06", "x11"] }
windows-sys = { version = "*", features = ["Win32_Foundation", "Win32_System_DataExchange", "Win32_System_Memory"] }
