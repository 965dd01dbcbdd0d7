[package]
name = "dynv6"
version = "0.1.0"
edition = "2021"
publish = false

[dependencies]
serde_urlencoded = "*"
serde = { version = "*", features = ["derive"] }
curl = { version = "*", default-features = false }
local-ip-address = "*"
signal-hook = "*"
dotenvy = "*"
log = "*"
env_logger = "*"
figment = { version = "*", features = ["env"] }
