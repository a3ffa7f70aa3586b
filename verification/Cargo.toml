[package]
name = "xiranet"
version = "0.1.0"
edition = "2021"
publish = false

[dependencies]
dashmap = "6"
uuid = { version = "=1.29.0", features = ["v4"] }
rand = "=0.8.8"
hmac = "=0.12.1"
sha1 = "=0.10.7"
sha2 = "=0.10.9"
subtle = "=2.6.1"
lru = "=0.12.5"
regex = "=1.13.1"
base64 = "=0.22.1"
aes-gcm = "=0.10.3"
argon2 = "=0.5.3"
jsonwebtoken = "=9.3.1"
serde = { version = "=1.0.229", features = ["derive"] }
serde_json = "=1.0.154"
toml = "=0.8.23"
clap = { version = "=4.6.7", features = ["derive", "env"] }
tokio = { version = "=1.54.1", features = ["full"] }
reqwest = { version = "=0.12.28", default-features = false, features = ["json", "rustls-tls"] }
chrono = "=0.4.45"
actix-web = { version = "4", default-features = false, features = ["macros"] }
