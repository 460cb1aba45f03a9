[package]
name = "btc_wallet"
version = "0.1.0"
edition = "2021"
publish = false

[dependencies]
bip39 = "2.2"
bitcoin = "0.32.8"
aes-gcm = "0.10"
pbkdf2 = "0.12"
sha2 = "0.10"
hex = "0.4"
serde = { version = "1", features = ["derive"] }
serde_json = "1"
serde_yaml = "0.9"
reqwest = { version = "0.12", default-features = false, features = ["blocking", "json", "rustls-tls"] }
