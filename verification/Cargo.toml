[package]
name = "sequencer"
version = "0.1.0"
edition = "2021"
publish = false

[dependencies]
regex = "1"
fontdue = "*"
raqote = { version = "*", default-features = false, features = ["png"] }
clap = { version = "3.2", features = ["cargo"] }
itertools = "*"
log = "0.4"
pretty_env_logger = "*"
