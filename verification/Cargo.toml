[package]
name = "wiedzieliscie_backend"
version = "0.1.0"
edition = "2021"
publish = false

[dependencies]
jsonwebtoken = { version = "=11.1.0", features = ["rust_crypto"] }
serde_json = "=1.0.151"
uuid = { version = "=1.27.0", features = ["v4"] }
argon2 = "=0.6.0"
resend-rs = "=0.34.0"
