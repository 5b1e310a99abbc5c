[package]
name = "virtual_picross"
version = "0.1.0"
edition = "2021"
publish = false

[dependencies]
arrayvec = { version = "0.7", default-features = false }
rand = { version = "0.9", default-features = false }
rand_xoshiro = "0.7"
