[package]
name = "silverdeck"
version = "0.1.0"
edition = "2021"
publish = false

[dependencies]
regex = "1"
anyhow = "1"
serde = { version = "1", features = ["derive"] }
serde_json = "1"
steamlocate = "2"
ureq = "3"
portable-pty = "*"
async-channel = "2"
async-process = "2"
futures-lite = "2"
swayipc-async = "2"
gilrs = "*"
log = "0.4"
env_logger = "0.11"
