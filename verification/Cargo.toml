[package]
name = "termassist"
version = "0.1.0"
edition = "2021"
publish = false

[dependencies]
vt100 = "0.18"
crossterm = "0.29"
ratatui = "0.30"
portable-pty = "=0.9.0"
interprocess = "=2.4.7"
serde = { version = "=1.0.229", features = ["derive"] }
serde_json = "=1.0.154"
toml = "=0.8.23"
clap = { version = "=4.6.7", features = ["derive"] }
directories = "=6.0.0"
anyhow = "=1.0.104"
