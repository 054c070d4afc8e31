[package]
name = "utxo_commitments"
version = "0.1.0"
edition = "2021"
publish = false

[dependencies]
blvm-consensus = "=0.1.73"
sha2 = "=0.10.9"
