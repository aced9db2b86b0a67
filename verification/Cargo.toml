[package]
name = "dmbc"
version = "0.1.0"
edition = "2021"
publish = false

[dependencies]
exonum_sodiumoxide = "=0.0.24"
rand = "=0.10.3"
