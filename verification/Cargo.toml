[package]
name = "sbc"
version = "0.1.0"
edition = "2021"
publish = false

[dependencies]
nix = { version = "*", features = ["signal", "process"] }
clap = { version = "*", features = ["derive"] }
ctrlc = "*"
ureq = "2"
anyhow = "*"
log = "*"
serde_json = "*"
