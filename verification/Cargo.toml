[package]
name = "ferrus"
version = "0.1.0"
edition = "2021"
publish = false

[dependencies]
anyhow = "=1.0.104"
chrono = { version = "=0.4.45", features = ["serde"] }
clap = { version = "=4.6.7", features = ["derive"] }
crossterm = { version = "=0.29.0", features = ["event-stream"] }
dirs = "=7.0.0"
futures = "0.3"
libc = "=0.2.191"
portable-pty = "=0.9.0"
rusqlite = { version = "=0.41.1", features = ["bundled"] }
rustyline = "=19.0.0"
serde = { version = "1", features = ["derive"] }
serde_json = "=1.0.154"
shlex = "1"
tokio = { version = "=1.54.1", features = ["full"] }
toml = "=1.1.8"
tracing = "0.1"
tracing-subscriber = { version = "0.3", features = ["env-filter"] }
