[package]
name = "kana_layout"
version = "0.1.0"
edition = "2021"
publish = false

[dependencies]
rand = "0.8.5"
rand_chacha = "0.3.1"
serde = { version = "1", features = ["derive"] }
crossterm = "0.28"
ratatui = "0.29"
