[package]
name = "pier"
version = "0.1.0"
edition = "2021"
publish = false

[dependencies]
ratatui = "*"
crossterm = "*"
tokio = { version = "1", features = ["full"] }
anyhow = "1"
arboard = "*"
dirs = "*"
serde = { version = "1", features = ["derive"] }
serde_json = "1"
toml = "*"
chrono = "*"
