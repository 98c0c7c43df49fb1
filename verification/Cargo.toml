[package]
name = "pastebin"
version = "0.1.0"
edition = "2021"
publish = false

[dependencies]
rand = "0.8"
actix-web = "4"
actix-files = "0.6"
actix-utils = "3"
actix-web-lab = "*"
minijinja = "2"
minijinja-autoreload = "2"
serde = { version = "1", features = ["derive"] }
log = "0.4"
env_logger = "0.11"
