[package]
name = "code2prompt"
version = "0.1.0"
edition = "2021"
publish = false

[dependencies]
anyhow = "*"
clap = { version = "*", features = ["derive"] }
ignore = "*"
tiktoken-rs = "*"
