[package]
name = "rivect"
version = "0.1.0"
edition = "2021"
publish = false

[dependencies]
crossterm = "=0.29.0"
focaccia = "=2.6.0"
keyring-core = "=1.0.1"
serde = { version = "1", features = ["derive"] }
serde_json = "=1.0.154"
sha2 = "=0.11.1"
thiserror = "=2.0.21"
toml_edit = "=0.25.17"
unicode-normalization = "=0.1.26"
uuid = { version = "=1.29.0", features = ["v4"] }
zbus-secret-service-keyring-store = { version = "=1.0.1", features = ["rt-async-io-crypto-rust"] }
apple-native-keyring-store = "=1.0.2"
