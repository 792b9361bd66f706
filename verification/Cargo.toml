[package]
name = "studio_project_manager"
version = "0.1.0"
edition = "2021"
publish = false

[dependencies]
quick-xml = "0.31"
hex = "0.4"
encoding_rs = "0.8"
crc32fast = "1"
flate2 = "1"
serde = { version = "1", features = ["derive"] }
toml = "0.8"
dirs = "5"
