[package]
name = "db"
version = "0.1.0"
edition = "2021"
publish = false

[dependencies]
rusqlite = { version = "*", features = ["bundled"] }
clap = { version = "*", features = ["derive"] }
ratatui = "*"
tui-input = "*"
random-string = "*"
