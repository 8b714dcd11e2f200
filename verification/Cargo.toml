[package]
name = "hash_hunter"
version = "0.1.0"
edition = "2021"
publish = false

[dependencies]
secp256k1 = "*"
rand = "0.8"
sha3 = "*"
hex = "*"
regex = "*"
num_cpus = "*"
clap = { version = "*", features = ["derive"] }
colored = "*"
indicatif = "*"
serde = { version = "*", features = ["derive"] }
serde_json = "*"
chrono = "*"
rayon = "*"
