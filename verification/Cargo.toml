[package]
name = "draven"
version = "0.1.0"
edition = "2021"
publish = false

[dependencies]
syn = { version = "*", features = ["full", "extra-traits"] }
quote = "*"
toml = "*"
notify = "*"
log = "*"
env_logger = "*"
