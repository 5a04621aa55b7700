[package]
name = "sven_tui"
version = "0.1.0"
edition = "2021"
publish = false

[dependencies]
anyhow = "1"
base64 = "0.22"
chrono = "0.4"
crossterm = { version = "0.28", features = ["event-stream"] }
futures = "0.3"
notify = "8"
ratatui = "0.29"
regex = "1"
serde_json = "1"
tokio = { version = "1", features = ["sync", "rt", "rt-multi-thread", "macros", "time"] }
tracing = "0.1"
unicode-width = "0.2"
