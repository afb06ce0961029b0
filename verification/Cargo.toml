[package]
name = "ephemeral_vrf"
version = "0.1.0"
edition = "2021"
publish = false

[dependencies]
curve25519-dalek = "4"
hkdf = "0.12"
sha2 = "0.10"
solana-curve25519 = "2"
solana-program = "2"
steel = "4"
