[package]
name = "solana-groth16-verify"
version = "0.1.0"
edition = "2021"
publish = false

[dependencies]
solana-bn254 = "=3.2.1"
sha2 = "=0.10.9"
solana-address = { version = "=2.9.0", features = ["curve25519"] }
solana-sha256-hasher = { version = "=3.1.0", features = ["sha2"] }
solana-instruction = "=4.0.0"
pinocchio = "=0.12.0"
pinocchio-system = "=0.7.0"

[dev-dependencies]
ark-bn254 = "=0.5.0"
ark-ec = "=0.5.0"
ark-ff = "=0.5.0"
