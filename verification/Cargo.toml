[package]
name = "ssh_manager"
version = "0.1.0"
edition = "2021"
publish = false

[dependencies]
openssh-keys = "*"
chrono = "*"
dirs = "*"
serde = { version = "*", features = ["derive"] }
serde_json = "*"
arboard = "*"
