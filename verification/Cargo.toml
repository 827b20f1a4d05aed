[package]
name = "aurorastorage"
version = "0.1.0"
edition = "2021"
publish = false

[dependencies]
serde_json = "1"
serde = { version = "1", features = ["derive"] }
serde_derive = "1"
mysql = "16"
libc = "0.2"
lazy_static = "1"
log = "0.3"
env_logger = "0.4"
