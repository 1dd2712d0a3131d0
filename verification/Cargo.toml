[package]
name = "rpnpad"
version = "0.1.0"
edition = "2021"
publish = false

[dependencies]
dashu = "0.4"
serde = { version = "1", features = ["derive"] }
serde_json = "1"
dirs = "5"
crossterm = "0.28"
ratatui = "0.29"
signal-hook = "0.3"
