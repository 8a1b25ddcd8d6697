[package]
name = "cargo_nbuild"
version = "0.1.0"
edition = "2021"
publish = false

[dependencies]
regex = "*"
ratatui = "*"
serde = { version = "*", features = ["derive"] }
serde_json = "*"
serde_yml = "*"
toml = "*"
dirs = "*"
chrono = "*"
lazy_static = "*"
