[package]
name = "snout"
version = "0.1.0"
edition = "2021"
publish = false

[dependencies]
anyhow = "=1.0.104"
chrono = { version = "=0.4.45", default-features = false, features = ["clock"] }
clap = { version = "=4.6.7", features = ["derive"] }
crossterm = "=0.28.1"
dirs = "=5.0.1"
futures-util = "=0.3.34"
ratatui = "=0.29.0"
reqwest = { version = "=0.12.28", default-features = false, features = ["stream", "socks"] }
serde = { version = "1", features = ["derive"] }
serde_json = "1"
serde_yaml = "=0.9.34"
tokio = { version = "=1.54.1", features = ["rt-multi-thread", "macros", "time", "fs", "io-util", "sync"] }
