[package]
name = "ssp_mpcith"
version = "0.1.0"
edition = "2021"
publish = false

[dependencies]
aes = "0.8"
ctr = "0.9"
sha3 = "0.10"
hex = { version = "0.4", features = ["serde"] }
rand = "0.8"
rand_chacha = "0.3"
rand_core = { version = "0.6", features = ["getrandom"] }
serde = { version = "1", features = ["derive"] }
bincode = "1"
byteorder = "1"
crossbeam = "0.8"
