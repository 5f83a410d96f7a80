[package]
name = "lander"
version = "0.1.0"
edition = "2021"
publish = false

[dependencies]
twox-hash = "*"
serde = { version = "*", features = ["derive"] }
serde_json = "*"
clipboard = "*"
rdev = "*"
