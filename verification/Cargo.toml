[package]
name = "autocapcut"
version = "0.1.0"
edition = "2021"
publish = false

[dependencies]
sha2 = "=0.10.9"
pbkdf2 = { version = "=0.12.2", features = ["hmac"] }
aes-gcm = "=0.10.3"
base64 = "=0.22.1"
chrono = { version = "=0.4.45", default-features = false, features = ["alloc"] }
serde = { version = "1", features = ["derive"] }
serde_json = "1"
image = { version = "0.25", default-features = false, features = ["png"] }
