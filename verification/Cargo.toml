[package]
name = "doppelganger"
version = "0.1.0"
edition = "2021"
publish = false

[dependencies]
rust-htslib = { version = "0.35", default-features = false }
