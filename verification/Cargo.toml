[package]
name = "tgv"
version = "0.1.0"
edition = "2021"
publish = false

[dependencies]
nom = "*"
noodles = { version = "*", features = ["sam"] }
ratatui = { version = "*", default-features = false }
