[package]
name = "restui"
version = "0.1.0"
edition = "2021"
publish = false

[dependencies]
cached = "0.44"
clap = { version = "4", features = ["derive"] }
crossterm = "0.27"
once_cell = "1"
ratatui = "0.23"
reqwest = { version = "0.11", features = ["json"] }
serde_json = "1"
syntect = { version = "5", default-features = false, features = ["default-fancy"] }
tokio = { version = "1", features = ["full"] }
