[package]
name = "bookmarks"
version = "0.1.0"
edition = "2021"
publish = false

[dependencies]
serde_json = "=1.0.154"
serde = { version = "=1.0.229", features = ["derive"] }
anyhow = "=1.0.104"
axum = "=0.8.9"
tokio = { version = "=1.54.1", features = ["rt-multi-thread", "net", "sync", "signal", "macros"] }
clap = { version = "=4.6.7", features = ["derive"] }
open = "=5.4.5"
toml = "0.8"
