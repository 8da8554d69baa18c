[package]
name = "atpmd"
version = "0.1.0"
edition = "2021"
publish = false

[dependencies]
bls12_381 = { version = "0.8", features = ["experimental"] }
pairing = "0.23"
curve25519-dalek = "4"
k256 = { version = "0.13", features = ["arithmetic", "hash2curve"] }
elliptic-curve = { version = "0.13", features = ["arithmetic", "hash2curve"] }
rand = "0.8"
rand_chacha = "0.3"
sha2 = "0.9"
subtle = "2"
serde = { version = "1", features = ["derive"] }
serde_json = "1"
qrcode = { version = "0.14", default-features = false }
