[package]
name = "auth_backend"
version = "0.1.0"
edition = "2021"
publish = false

[dependencies]
jsonwebtoken = "9"
totp-rs = "5"
base32 = "0.4"
bcrypt = "0.15"
rand = "0.8"
actix-web = "4"
actix-cors = "0.7"
serde = { version = "1", features = ["derive"] }
serde_json = "1"
dotenvy = "0.15"

[dev-dependencies]
uuid = "1"
