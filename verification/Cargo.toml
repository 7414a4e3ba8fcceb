[package]
name = "nas"
version = "0.1.0"
edition = "2021"
publish = false

[dependencies]
iced-x86 = { version = "1", features = ["code_asm"] }
hlbc = "*"
libmem = "5"
tracing = "0.1"
serde = { version = "1", features = ["derive"] }
serde_json = "1"
dirs = "*"
windows = { version = "0.58", features = ["Win32_Foundation", "Win32_Security", "Win32_System_Threading", "Win32_System_Diagnostics_Debug", "Win32_System_Memory", "Win32_System_ProcessStatus"] }
