[package]
name = "sp_playback"
version = "0.1.0"
edition = "2021"
publish = false

[dependencies]
crossbeam-channel = "=0.5.17"
jpeg-encoder = "=0.7.1"
serde = { version = "1", features = ["derive"] }
serde_json = "1"
sqlx = { version = "0.8", default-features = false, features = ["runtime-tokio", "sqlite"] }
tokio = { version = "1", features = ["macros", "rt", "rt-multi-thread", "sync", "time"] }
tracing = "0.1"
windows-sys = { version = "*", features = ["Win32_Foundation", "Win32_Media", "Win32_System_ProcessStatus", "Win32_System_Threading"] }
