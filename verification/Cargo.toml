[package]
name = "gitover"
version = "0.1.0"
edition = "2021"
publish = false

[dependencies]
anyhow = "1"
arboard = { version = "3", default-features = false }
chrono = { version = "0.4", default-features = false, features = ["clock"] }
crossterm = "*"
git2 = "*"
notify = "*"
ratatui = "*"
ratatui-explorer = "*"
serde = { version = "1", features = ["derive"] }
serde_yaml = "0.9"
tui-textarea = "*"
