[package]
name = "projektor"
version = "0.1.0"
edition = "2021"
publish = false

[dependencies]
clap = { version = "*", features = ["derive"] }
color-eyre = "*"
ratatui = "*"
ratatui-explorer = "*"
ratatui-textarea = "*"
serde = { version = "*", features = ["derive"] }
toml = "*"
tui-markdown = "*"
