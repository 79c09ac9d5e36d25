[package]
name = "oxide_lower"
version = "0.1.0"
edition = "2021"
publish = false

[dependencies]
anyhow = "=1.0.104"
pliron = "=0.20.0"
pliron-derive = "=0.20.0"
