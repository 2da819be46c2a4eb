[package]
name = "nv"
version = "0.1.0"
edition = "2021"

[dependencies]
crossterm = "0.25"
serde_json = "1"
tui = "0.19"
unicode-width = "0.1"
