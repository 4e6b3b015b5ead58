[package]
name = "jarvis"
version = "0.1.0"
edition = "2021"
publish = false

[dependencies]
chrono = "*"
clap = { version = "*", features = ["derive"] }
cron = "*"
crossterm = "*"
directories = "*"
libc = "*"
ratatui = "*"
reqwest = { version = "=0.13.5", default-features = false, features = ["json", "query"] }
rusqlite = { version = "*", features = ["bundled"] }
serde = { version = "*", features = ["derive"] }
serde_json = "*"
tokio = { version = "*", features = ["rt-multi-thread", "macros", "time", "sync", "signal", "process", "fs", "io-util"] }
unicode-width = "*"
uuid = { version = "*", features = ["v4"] }

[dev-dependencies]
