[package]
name = "veryfi"
version = "1.0.0"
edition = "2021"
publish = false

[dependencies]
base64 = "0.13"
hmac-sha256 = "*"
reqwest = { version = "*", default-features = false, features = ["blocking"] }

[dev-dependencies]
serde_json = "*"
