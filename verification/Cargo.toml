[package]
name = "aqua_chain"
version = "0.1.0"
edition = "2021"
publish = false

[dependencies]
sha3 = "*"
libsecp256k1 = "*"
base64 = "*"

[dev-dependencies]
hex = "*"
