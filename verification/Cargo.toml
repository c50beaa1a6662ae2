[package]
name = "rchess"
version = "0.7.3"
edition = "2021"
publish = false

[dependencies]
tokio = { version = "1", features = ["full"] }
ratatui = "*"
crossterm = "*"
