[package]
name = "lando"
version = "0.2.0"
edition = "2021"
publish = false

[dependencies]
base64 = "*"
serde = "*"
serde_json = "*"
serde_urlencoded = "*"
