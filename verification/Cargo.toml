[package]
name = "dbgview"
version = "0.1.0"
edition = "2021"
publish = false

[dependencies]
regex = "1"
sysinfo = "0.33"
rand = "0.8"
chrono = "0.4"
clap = { version = "4", features = ["derive"] }
ctrlc = "3"
serde = { version = "1", features = ["derive"] }
serde_json = "1"
schemars = "1"
rmcp = { version = "0.8", features = ["server", "macros"] }
tokio = { version = "1", features = ["full"] }
tracing = "0.1"
tracing-subscriber = { version = "0.3", features = ["env-filter"] }
anyhow = "1"
thiserror = "2"
parking_lot = "0.12"
windows = { version = "0.58", features = ["Win32_Foundation", "Win32_System_Memory", "Win32_System_Threading", "Win32_Security", "Win32_System_Diagnostics_Debug"] }
