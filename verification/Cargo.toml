[package]
name = "pwbox"
version = "0.1.0"
edition = "2021"
publish = false

[dependencies]
rand = "0.8"
clear_on_drop = "0.2"
smallvec = "1"
serde = { version = "1", features = ["derive"] }
serde_json = "1"
hex-buffer-serde = "*"
