[package]
name = "hexview"
version = "0.1.0"
edition = "2021"
publish = false

[dependencies]
atty = "*"
clap = "*"
env_logger = "*"
term_size = "*"
termion = "*"

[dev-dependencies]
hex = "*"
