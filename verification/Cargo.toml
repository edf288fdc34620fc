[package]
name = "qdb"
version = "0.1.0"
edition = "2021"
publish = false

[dependencies]
directories = "*"
env_logger = "*"
lazy_static = "1"
log = "0.4"
serde = { version = "1", features = ["derive"] }
serde_json = "1"
uuid = { version = "1", features = ["v4"] }
