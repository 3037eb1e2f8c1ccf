[package]
name = "pssh"
version = "0.1.0"
edition = "2021"
publish = false

[dependencies]
native-windows-gui = "1"
serde = { version = "1", features = ["derive"] }
toml = "*"
winapi = { version = "0.3", features = ["combaseapi", "knownfolders", "libloaderapi", "minwindef", "processthreadsapi", "shlobj", "userenv", "winnt", "winuser"] }
