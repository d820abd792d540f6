[package]
name = "nixos_setup"
version = "0.1.0"
edition = "2021"
publish = false

[dependencies]
rust-argon2 = "2"
clap = "2"
serde = { version = "1", features = ["derive"] }
serde_json = "1"
log = "0.4"
env_logger = "0.10"
mktemp = "0.5"
