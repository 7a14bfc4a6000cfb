[package]
name = "holo"
version = "0.1.0"
edition = "2021"
publish = false

[dependencies]
serde = { version = "1", features = ["derive"] }
serde_json = "1"
chrono = "0.4"
color-eyre = "0.6"
crossterm = "0.28"
ratatui = "0.29"
tui-textarea = "0.7"
dirs = "6"
open = "5"
arboard = { version = "3", default-features = false }
