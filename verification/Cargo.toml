[package]
name = "cryptobox"
version = "0.1.0"
edition = "2021"
publish = false

[dependencies]
chacha20poly1305 = "0.10"
ma_proper = "*"

[dev-dependencies]
rand = "0.8"
