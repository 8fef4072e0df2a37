[package]
name = "cc_session"
version = "0.1.0"
edition = "2021"
publish = false

[dependencies]
arboard = "*"
chrono = "*"
chrono-humanize = "*"
clap = { version = "4", features = ["derive"] }
crossterm = "*"
dirs = "*"
nucleo-matcher = "*"
ratatui = "*"
rayon = "*"
regex = "*"
serde_json = "*"
