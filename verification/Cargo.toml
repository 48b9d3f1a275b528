[package]
name = "gifer"
version = "0.1.0"
edition = "2021"
publish = false

[dependencies]
anyhow = "1"
clipboard-rs = "*"
crossterm = { version = "*", features = ["event-stream"] }
dirs = "*"
ffmpeg-sidecar = { version = "*", default-features = false }
futures = "*"
ratatui = "*"
serde = { version = "1", features = ["derive"] }
tokio = { version = "1", features = ["rt-multi-thread", "macros", "sync", "time"] }
toml = "*"
uuid = { version = "1", features = ["v4"] }
