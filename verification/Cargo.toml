[package]
name = "kakashi"
version = "0.1.0"
edition = "2021"
publish = false

[dependencies]
regex = "1"
reqwest = { version = "*", features = ["json"] }
serde = "1"
serde_json = "1"
