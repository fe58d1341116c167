[package]
name = "vocoder"
version = "0.2.0"
edition = "2021"
publish = false

[dependencies]
anyhow = "1"
cpal = "0.15"
crossterm = "0.28"
ratatui = "0.29"
