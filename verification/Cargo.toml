[package]
name = "authust"
version = "0.1.0"
edition = "2021"
publish = false

[dependencies]
rust-argon2 = "*"
hmac = "*"
sha2 = "*"
chrono = "*"
serde = { version = "*", features = ["derive"] }
serde_json = "*"
log = "*"
env_logger = "*"
actix-web = "*"
actix-web-grants = "*"
actix-web-httpauth = "*"
deadpool-postgres = "*"
tokio-postgres = "*"
