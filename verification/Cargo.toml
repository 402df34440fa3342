[package]
name = "termsuite"
version = "0.1.0"
edition = "2021"
publish = false

[dependencies]
anyhow = "1"
async-trait = "0.1"
audiotags = "*"
chrono = { version = "0.4", features = ["serde"] }
crossterm = "*"
dirs = "*"
open = "*"
ratatui = "*"
reqwest = { version = "*", default-features = false, features = ["json", "rustls-tls"] }
rusqlite = { version = "*", features = ["bundled"] }
serde = { version = "1", features = ["derive"] }
serde_json = "1"
tokio = { version = "1", features = ["rt-multi-thread", "macros", "time", "sync"] }
toml = "*"
tracing = "0.1"
tracing-subscriber = "0.3"
urlencoding = "*"
walkdir = "2"
