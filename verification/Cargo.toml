[package]
name = "raze"
version = "0.1.0"
edition = "2021"
publish = false

[dependencies]
tar = "*"
zstd = "*"
clap = { version = "*", features = ["derive"] }
env_logger = "*"
log = "*"
thiserror = "*"
