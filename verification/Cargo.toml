[package]
name = "opencode_config"
version = "0.1.0"
edition = "2021"
publish = false

[dependencies]
jsonc-parser = { version = "=0.32.4", features = ["cst", "serde_json"] }
serde_json = "=1.0.154"
windows-sys = { version = "=0.61.2", features = ["Win32_Foundation", "Win32_Security", "Win32_Storage_FileSystem"] }
