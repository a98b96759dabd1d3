[package]
name = "testnice"
version = "0.1.0"
edition = "2021"
publish = false

[dependencies]
clap = { version = "4", features = ["derive"] }
crossterm = "0.27"
file-guard = "0.2"
nix = { version = "0.27", features = ["process", "signal"] }
owo-colors = "3"
ratatui = "0.26"
