[package]
name = "lottery_test"
version = "0.1.0"
edition = "2021"
publish = false

[dependencies]
sha3 = "0.10"

[dev-dependencies]
parity-scale-codec = "3"
