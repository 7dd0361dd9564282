[package]
name = "crank"
version = "0.1.1"
edition = "2021"
publish = false

[dependencies]
clap = { version = "4", features = ["derive"] }
crossterm = "0.28"
portable-pty = "0.9"
ratatui = "0.29"
serde = { version = "1", features = ["derive"] }
tempfile = "3"
thiserror = "2"
toml = "0.8"
vt100 = "0.15"
