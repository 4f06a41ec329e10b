[package]
name = "authenticate_ssh_key"
version = "0.1.0"
edition = "2021"
publish = false

[dependencies]
base64 = "0.22"
ed25519-dalek = "2"
p256 = { version = "0.13", features = ["ecdsa"] }
rsa = "0.9"
sha2 = { version = "0.10", features = ["oid"] }

[dev-dependencies]
rand = "0.8"
