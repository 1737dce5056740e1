[package]
name = "prompt_scan"
version = "0.1.0"
edition = "2021"
publish = false

[dependencies]
anyhow = "1"
clap = { version = "4", features = ["derive"] }
clipboard = "0.5"
env_logger = "0.11"
ignore = "0.4"
log = "0.4"
