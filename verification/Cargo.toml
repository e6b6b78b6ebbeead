[package]
name = "soroswap_pair"
version = "0.1.0"
edition = "2021"
publish = false

[dependencies]
num-integer = "=0.1.47"
soroban-sdk = "*"
