[package]
name = "jango"
version = "0.1.0"
edition = "2021"
publish = false

[dependencies]
markdown = "*"
toml = "*"
clap = { version = "*", features = ["derive"] }
camino = "*"
color-eyre = "*"
