[package]
name = "ringct"
version = "0.1.0"
edition = "2021"
publish = false

[dependencies]
bls_bulletproofs = "*"
tiny-keccak = { version = "2", features = ["sha3"] }
