[package]
name = "plonk"
version = "0.1.0"
edition = "2021"
publish = false

[dependencies]
bls12_381 = { version = "0.8", default-features = false, features = ["groups", "pairings", "alloc"] }
rand = "0.8"
serde = "1"
