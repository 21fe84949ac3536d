[package]
name = "zk-verifier"
version = "0.1.0"
edition = "2021"
publish = false

[dependencies]
ark-bn254 = "=0.4.0"
ark-ec = "=0.4.2"
ark-ff = "=0.4.2"
hex = "=0.4.3"
serde_json = "=1.0.154"
near-sdk = { version = "=5.29.1", features = ["non-contract-usage"] }

[dev-dependencies]
ark-groth16 = "=0.4.0"
ark-relations = "=0.4.0"
ark-snark = "=0.4.0"
ark-std = { version = "=0.4.0", features = ["std"] }
