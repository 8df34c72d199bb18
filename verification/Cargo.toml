[package]
name = "zekrom_core"
version = "0.1.0"
edition = "2021"
publish = false

[dependencies]
anyhow = "1"
ark-bls12-381 = "0.3"
ark-ec = "0.3"
ark-ff = "0.3"
ark-groth16 = "0.3"
ark-marlin = "0.3"
ark-poly = "0.3"
ark-poly-commit = "0.3"
ark-r1cs-std = "0.3"
ark-relations = "0.3"
ark-snark = "0.3"
ark-std = "0.3"
blake2 = "0.9"
rand = "0.8"

[dev-dependencies]
