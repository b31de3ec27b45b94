[package]
name = "tempshare"
version = "0.1.0"
edition = "2021"
publish = false

[dependencies]
argon2 = "=0.5.3"
password-hash = { version = "=0.5.0", features = ["getrandom"] }
rand = "=0.9.5"
validator = "=0.21.0"
chrono = "*"
serde = { version = "*", features = ["derive"] }
toml = "*"
