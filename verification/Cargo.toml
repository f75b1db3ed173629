[package]
name = "cru"
version = "0.1.0"
edition = "2021"
publish = false

[dependencies]
ansi_term = "0.12"
chrono = "0.4"
clap = { version = "4", features = ["cargo"] }
configparser = { version = "3", features = ["indexmap"] }
dirs = "*"
edit = "0.1"
git2 = { version = "*", default-features = false }
