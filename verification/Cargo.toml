[package]
name = "ton_vanity"
version = "0.1.0"
edition = "2021"

[dependencies]
ed25519-dalek = "*"
tonlib-core = "*"
bip39 = "*"
rand = "*"
clap = { version = "*", features = ["derive"] }
rayon = "*"
indicatif = "*"

[dev-dependencies]
hex = "*"
