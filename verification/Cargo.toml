[package]
name = "dbgcore"
version = "0.1.0"
edition = "2021"
publish = false

[dependencies]
codemap = "=0.1.3"
codemap-diagnostic = "=0.1.2"
pdb = "=0.8.0"
windows = { version = "=0.52.0", features = ["Win32_Foundation", "Win32_Security", "Win32_Storage_FileSystem", "Win32_System_Diagnostics_Debug", "Win32_System_Kernel", "Win32_System_Threading"] }
