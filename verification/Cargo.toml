[package]
name = "pkroam"
version = "0.1.0"
edition = "2021"
publish = false

[dependencies]
anyhow = "*"
clap = { version = "*", features = ["derive"] }
crossterm = "*"
directories = "*"
env_logger = "*"
log = "*"
prettytable-rs = "*"
ratatui = "*"
rusqlite = { version = "*", features = ["bundled"] }
simple-logging = "*"
