[package]
name = "json2lua"
version = "0.1.0"
edition = "2021"
publish = false

[dependencies]
serde_json = { version = "*", features = ["preserve_order"] }
indexmap = { version = "*", features = ["serde"] }
