[package]
name = "pane"
version = "0.1.0"
edition = "2021"
publish = false

[dependencies]
chrono = "0.4"
serde_json = "1"
toml = "0.8"
dirs = "5"
