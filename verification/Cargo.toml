[package]
name = "mkv_same"
version = "0.1.0"
edition = "2021"
publish = false

[dependencies]
dialoguer = "*"
serde = { version = "*", features = ["derive"] }
serde_json = "*"
thiserror = "*"
