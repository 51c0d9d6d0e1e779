[package]
name = "proc_monitor"
version = "0.1.0"
edition = "2021"
publish = false

[dependencies]
sha2 = "=0.11.1"
hex = "=0.4.3"
openssl = "=0.10.81"
nix = { version = "0.31", features = ["signal", "process"] }
anyhow = "1"
log = "0.4"
env_logger = "0.11"
