[package]
name = "nt"
version = "0.1.0"
edition = "2021"
publish = false

[dependencies]
toml = "0.8"
chrono = "0.4"
dirs = "5"
clap = { version = "4", features = ["derive"] }
