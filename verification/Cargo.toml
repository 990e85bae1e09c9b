[package]
name = "mini_ci"
version = "0.1.0"
edition = "2021"
publish = false

[dependencies]
git2 = "=0.21.0"
serde = { version = "*", features = ["derive"] }
serde_json = "*"
