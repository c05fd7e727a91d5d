[package]
name = "verifiable_encryption"
version = "0.1.0"
edition = "2021"
publish = false

[dependencies]
anyhow = "1"
ark-bls12-381 = "0.3"
ark-ec = "0.3"
ark-ed-on-bls12-381 = { version = "0.3", features = ["r1cs"] }
ark-ff = "0.3"
ark-r1cs-std = "0.3"
ark-relations = "0.3"
ark-sponge = { version = "0.3", features = ["r1cs"] }
ark-std = "0.3"
