[package]
name = "snakeos"
version = "0.1.0"
edition = "2021"
publish = false

[dependencies]
crossbeam-queue = "*"
rand = { version = "*", default-features = false, features = ["small_rng"] }
pc-keyboard = "*"
