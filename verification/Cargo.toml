[package]
name = "crumbeez"
version = "0.1.0"
edition = "2021"
publish = false

[dependencies]
rmp-serde = "*"
serde = { version = "1", features = ["derive"] }
serde_json = "1"
zellij-tile = "*"
