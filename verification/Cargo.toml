[package]
name = "quark"
version = "0.1.0"
edition = "2021"
publish = false

[dependencies]
anyhow = "=1.0.104"
dirs = "=5.0.1"
rand = "=0.8.8"
serde = { version = "=1.0.229", features = ["derive"] }
serde_json = "=1.0.154"
sysinfo = "=0.33.1"
tokenizers = { version = "=0.21.4", default-features = false, features = ["fancy-regex"] }
toml = "=0.8.23"
ureq = { version = "=2.12.1", features = ["json"] }
ratatui = "0.29"
crossterm = "0.28"
