[package]
name = "fieldfilter"
version = "0.1.0"
edition = "2021"
publish = false

[dependencies]
quote = "=1.0.47"
syn = "=1.0.109"
