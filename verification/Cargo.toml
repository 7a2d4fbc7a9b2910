[package]
name = "raproxy"
version = "0.1.0"
edition = "2021"
publish = false

[dependencies]
nix = "0.24"
clap = "2"
log = "0.4"
env_logger = "0.9"
