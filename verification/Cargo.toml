[package]
name = "crabsync"
version = "0.1.0"
edition = "2021"
publish = false

[dependencies]
anyhow = "1"
clap = { version = "4", features = ["derive"] }
crossterm = "0.28"
expectrl = "0.7"
ratatui = "0.29"
serde = { version = "1", features = ["derive"] }
tempfile = "3"
toml = "0.8"
walkdir = "2"
