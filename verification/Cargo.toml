[package]
name = "picopilot"
version = "0.1.0"
edition = "2021"
publish = false

[dependencies]
unicode-segmentation = "=1.13.3"
unicode-width = "=0.2.0"
ratatui = "=0.29.0"
crossterm = "=0.28.1"
pulldown-cmark = { version = "*", default-features = false }
