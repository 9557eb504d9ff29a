[package]
name = "super_optimiser"
version = "0.1.0"
edition = "2021"
publish = false

[dependencies]
egg = { version = "0.9.5", features = ["lp"] }
lang-c = "*"
