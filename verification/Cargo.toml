[package]
name = "orange-platform"
version = "0.1.0"
edition = "2021"
publish = false

[dependencies]
base64 = "=0.22.1"
getrandom = "=0.3.4"
keyring = "=3.6.3"
percent-encoding = "=2.3.2"
serde = { version = "=1.0.229", features = ["derive"] }
serde_json = "=1.0.154"
serde_path_to_error = "=0.1.20"
sha2 = "=0.10.9"
url = "=2.5.8"
zeroize = { version = "=1.9.1", features = ["derive"] }
