[package]
name = "bandwith"
version = "0.1.0"
edition = "2021"
publish = false

[dependencies]
anyhow = "1"
clap = { version = "4", features = ["derive"] }
crossbeam-channel = "0.5"
dirs = "*"
ferrisetw = "*"
hickory-resolver = "*"
moka = { version = "0.12", features = ["future"] }
parking_lot = "0.12"
rusqlite = { version = "*", features = ["bundled"] }
tokio = { version = "1", features = ["rt", "rt-multi-thread", "macros", "time", "sync"] }
toml = "*"
tracing = "0.1"
tracing-subscriber = { version = "0.3", features = ["env-filter"] }
windows = { version = "0.58", features = ["Win32_Foundation", "Win32_System_ProcessStatus", "Win32_System_Threading", "Win32_System_Diagnostics_Etw"] }
