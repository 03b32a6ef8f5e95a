[package]
name = "tmux_organizer"
version = "0.1.0"
edition = "2021"
publish = false

[dependencies]
ratatui = "0.28"
crossterm = "0.28"
