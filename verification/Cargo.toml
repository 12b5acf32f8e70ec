[package]
name = "tacit"
version = "0.1.0"
edition = "2021"
publish = false

[dependencies]
addr2line = "*"
anyhow = "*"
bus = "*"
clap = { version = "*", features = ["derive"] }
env_logger = "*"
log = "*"
object = "*"
rustc_data_structures = "*"
rvdasm = "*"
serde = { version = "*", features = ["derive"] }
serde_json = "*"
