[package]
name = "kakukuma"
version = "0.1.0"
edition = "2021"
publish = false

[dependencies]
arboard = "*"
chrono = "*"
crossterm = "*"
ratatui = "*"
serde = { version = "*", features = ["derive"] }
serde_json = "*"
thiserror = "*"
