[package]
name = "gridedit"
version = "0.1.0"
edition = "2021"
publish = false

[dependencies]
umya-spreadsheet = "*"
anyhow = "1"
clap = { version = "4", features = ["derive"] }
crossterm = "*"
ratatui = "*"
