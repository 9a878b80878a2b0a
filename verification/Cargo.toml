[package]
name = "bitcoin_spv_lib"
version = "0.1.0"
edition = "2021"
publish = false

[dependencies]
bitcoin-spv = "=5.0.0"
num = "=0.4.3"
