[package]
name = "console_gis"
version = "0.1.0"
edition = "2021"
publish = false

[dependencies]
anyhow = "1"
crossterm = "0.28"
dirs-next = "2"
ratatui = "0.29"
serde = { version = "1", features = ["derive"] }
serde_json = "1"
sled = "0.34"
