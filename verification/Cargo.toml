[package]
name = "plasma"
version = "0.1.0"
edition = "2021"
publish = false

[dependencies]
cpal = "0.15"
hound = "3"
serde = { version = "1", features = ["derive"] }
serde_json = "1"
