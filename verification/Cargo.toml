[package]
name = "rchat_core"
version = "0.1.0"
edition = "2021"
publish = false

[dependencies]
argon2 = "=0.5.3"
base64 = "=0.22.1"
blake3 = "=1.8.7"
chacha20poly1305 = "=0.10.1"
ed25519-dalek = { version = "=2.2.0", features = ["rand_core"] }
hmac = "=0.12.1"
rand = "=0.8.8"
sha2 = "=0.10.9"
sha3 = "=0.10.9"
subtle = "=2.6.1"
zeroize = "=1.9.1"
