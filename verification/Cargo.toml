[package]
name = "file_hasher"
version = "0.1.0"
edition = "2021"
publish = false

[dependencies]
anyhow = "*"
blake3 = "*"
clap = { version = "*", features = ["derive"] }
crossbeam-channel = "*"
crossterm = "*"
env_logger = "*"
hex = "*"
num_cpus = "*"
ratatui = "*"
thiserror = "*"
walkdir = "*"
