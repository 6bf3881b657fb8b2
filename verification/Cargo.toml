[package]
name = "heyday"
version = "0.1.0"
edition = "2021"
publish = false

[dependencies]
crossbeam-channel = "*"
notify = "*"
nix = { version = "*", features = ["signal"] }
serde = { version = "*", features = ["derive"] }
ureq = { version = "*", features = ["json"] }
urlencoding = "*"
tempfile = "*"
env_logger = "*"
anyhow = "*"
