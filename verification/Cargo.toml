[package]
name = "slingshot"
version = "0.1.0"
edition = "2021"
publish = false

[dependencies]
libc = "0.2"
windows-sys = { version = "0.48", features = ["Win32_Foundation", "Win32_System_IO", "Win32_System_Threading", "Win32_Networking_WinSock"] }
