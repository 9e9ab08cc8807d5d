[package]
name = "koko_keywords"
version = "0.3.1"
edition = "2021"
publish = false

[dependencies]
regex = "1"
cache_control = "*"
serde = { version = "1", features = ["derive"] }
serde_json = "1"
ureq = "2"
