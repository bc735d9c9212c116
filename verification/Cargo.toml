[package]
name = "ml-intern-tui"
version = "0.1.0"
edition = "2021"
publish = false

[dependencies]
anyhow = "1"
chrono = "0.4"
crossterm = "0.29"
dirs = "6"
ratatui = { version = "0.30", features = ["unstable-widget-ref"] }
serde = { version = "1", features = ["derive"] }
serde_json = "1"
tracing = "0.1"
unicode-segmentation = "1"
unicode-width = "0.2"
