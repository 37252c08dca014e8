[package]
name = "ptimer"
version = "0.1.0"
edition = "2021"
publish = false

[dependencies]
unicode-width = "0.2"
anyhow = "1"
chrono = "0.4"
clap = "4"
crossterm = "0.28"
dirs-next = "2"
serde = { version = "1", features = ["derive"] }
toml = "0.8"
which = "7"
