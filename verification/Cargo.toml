[package]
name = "arieltune"
version = "0.1.0"
edition = "2021"
publish = false

[dependencies]
anyhow = "1"
ash = "0.38"
crossterm = "*"
libc = "0.2"
ratatui = "*"
serde = { version = "1", features = ["derive"] }
serde_json = "1"
