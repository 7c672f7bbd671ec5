[package]
name = "tuba"
version = "1.1.0"
edition = "2021"
publish = false

[dependencies]
anyhow = "=1.0.104"
chrono = "=0.4.45"
clap = { version = "=4.6.7", features = ["derive"] }
colored = "=2.2.0"
crossterm = "=0.28.1"
ego-tree = "=0.6.3"
env_logger = "=0.11.11"
headless_chrome = "=1.0.22"
html2text = "=0.12.6"
log = "=0.4.35"
ratatui = "=0.29.0"
readability = { version = "=0.3.0", default-features = false }
regex = "=1.13.1"
reqwest = { version = "=0.12.28", features = ["cookies", "gzip", "brotli"] }
scraper = { version = "=0.20.0", features = ["deterministic"] }
serde = { version = "=1.0.229", features = ["derive"] }
serde_json = "=1.0.154"
tokio = { version = "=1.54.1", features = ["full"] }
unicode-width = "=0.2.0"
url = "=2.5.8"
