[package]
name = "pdf_viewer"
version = "0.1.0"
edition = "2021"
publish = false

[dependencies]
chrono = { version = "=0.4.45", features = ["serde"] }
lopdf = "=0.46.0"
rand = "=0.8.8"
serde = { version = "=1.0.229", features = ["derive"] }
serde_json = "=1.0.154"
tokio = { version = "=1.54.1", features = ["full"] }
tokio-util = { version = "=0.7.20", features = ["io"] }
axum = "=0.6.20"
hyper = "=0.14.32"
http = "=0.2.12"
clap = { version = "=4.6.7", features = ["cargo"] }
tracing = "=0.1.44"
tracing-subscriber = "=0.3.23"
dirs = "=5.0.1"
mime_guess = "2"
ratatui = "0.29"
crossterm = "0.28"
reqwest = { version = "0.12", default-features = false, features = ["json"] }
