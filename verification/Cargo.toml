[package]
name = "pw_splitter"
version = "0.1.0"
edition = "2021"
publish = false

[dependencies]
argh = "*"
crossterm = "*"
ratatui = "*"
serde = { version = "1", features = ["derive"] }
serde_json = "1"
thiserror = "*"
