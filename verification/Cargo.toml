[package]
name = "bufrw"
version = "0.1.0"
edition = "2021"

[dev-dependencies]
rand = "0.9"
