[package]
name = "lsql"
version = "0.1.0"
edition = "2021"
publish = false

[dependencies]
chrono = "0.4"
regex = "1"
walkdir = "2"
dirs = "*"
log = "0.4"
env_logger = "*"
colored = "*"
comfy-table = "*"
clap = { version = "4", features = ["derive"] }
reedline = "*"
nu-ansi-term = "*"
serde = { version = "1", features = ["derive"] }
toml = "*"
