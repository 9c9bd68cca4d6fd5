[package]
name = "momento_core"
version = "0.1.0"
edition = "2021"
publish = false

[dependencies]
serde_json = "*"
sha2 = "*"
argon2 = "*"
bcrypt = "*"
uuid = { version = "*", features = ["v4"] }
