[package]
name = "icon_finder"
version = "0.1.0"
edition = "2021"
publish = false

[dependencies]
regex = "1"
cookie = "*"
soup = "*"
reqwest = { version = "0.12", features = ["blocking", "gzip"] }
log = "0.4"
env_logger = "*"
