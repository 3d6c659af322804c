[package]
name = "lazygitrs"
version = "0.1.0"
edition = "2021"
publish = false

[dependencies]
anyhow = "1"
crossterm = "0.28"
ratatui = "0.29"
terminal-colorsaurus = "1"
tui-textarea = "0.7"
