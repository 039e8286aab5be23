[package]
name = "ctrlr"
version = "0.8.0"
edition = "2021"
publish = false

[dependencies]
sha1 = "0.10"
dirs = "6"
serde = { version = "1", features = ["derive"] }
serde_json = "1"
toml = "0.8"
fuzzy-matcher = "0.3"
ratatui = "0.29"
crossterm = "0.28"
rusqlite = { version = "0.32", features = ["bundled"] }
arboard = "3"
color-eyre = "0.6"
