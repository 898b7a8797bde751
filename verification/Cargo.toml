[package]
name = "session_core"
version = "0.1.0"
edition = "2021"
publish = false

[dependencies]
totp-rs = "5"
rand = "0.8"
qrcode-generator = "4"
serde_json = "1"

[dev-dependencies]
base32 = "0.4"
base64 = "0.21"
