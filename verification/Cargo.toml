[package]
name = "gitlogue"
version = "0.1.0"
edition = "2021"
publish = false

[dependencies]
anyhow = "1"
chrono = "0.4"
clap = { version = "4", features = ["derive"] }
crossterm = "*"
ctrlc = "*"
dirs = "*"
ratatui = "*"
serde = { version = "1", features = ["derive"] }
streaming-iterator = "*"
toml = "*"
toml_edit = "*"
tree-sitter = "*"
tree-sitter-dart = "*"
tree-sitter-nix = "*"
unicode-width = "*"
