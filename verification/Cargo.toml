[package]
name = "clipmagic"
version = "0.1.0"
edition = "2021"
publish = false

[dependencies]
anyhow = "*"
clipboard-win = "*"
confy = "*"
enigo = "*"
env_logger = "*"
livesplit-hotkey = "*"
log = "*"
serde = { version = "*", features = ["derive"] }
