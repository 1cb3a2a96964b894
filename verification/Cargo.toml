[package]
name = "tetris_sprint_lkp"
version = "0.1.0"
edition = "2021"
publish = false

[dependencies]
base64 = "0.22"
flate2 = "1"
serde_json = "1"
rand = "0.8"
rayon = "1"
rustc-hash = "2"
log = "0.4"
env_logger = "0.11"
