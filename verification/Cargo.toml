[package]
name = "plonkish_gadgets"
version = "0.1.0"
edition = "2021"
publish = false

[dependencies]
ff = "0.12"
halo2_proofs = "0.2"

[dev-dependencies]
rand = "0.8"
