[package]
name = "das_validators"
version = "0.1.0"
edition = "2021"
publish = false

[dependencies]
blake2b-ref = "*"
