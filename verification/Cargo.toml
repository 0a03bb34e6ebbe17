[package]
name = "ghayb"
version = "0.1.0"
edition = "2021"

[dependencies]
rand = "0.9"
sha2 = "0.10"
