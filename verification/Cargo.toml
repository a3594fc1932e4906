[package]
name = "cpm"
version = "0.1.0"
edition = "2021"
publish = false

[dependencies]
clap = { version = "3", features = ["derive"] }
ignore = "0.4"
serde = { version = "1", features = ["derive"] }
toml = "0.5"
