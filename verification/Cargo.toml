[package]
name = "clash_cli"
version = "0.1.0"
edition = "2021"
publish = false

[dependencies]
anyhow = "1"
clap = { version = "4", features = ["derive"] }
colored = "2"
crossterm = { version = "0.27", features = ["event-stream"] }
dialoguer = "0.11"
flate2 = "1"
futures-util = "0.3"
indicatif = "0.17"
ratatui = "0.26"
reqwest = { version = "0.12", features = ["json", "stream"] }
serde = { version = "1", features = ["derive"] }
serde_json = "1"
serde_yaml = "0.9"
tempfile = "3"
tokio = { version = "1", features = ["full"] }
urlencoding = "2"
