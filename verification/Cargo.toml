[package]
name = "partial_io"
version = "0.1.0"
edition = "2021"
publish = false

[dependencies]
quickcheck = { version = "1.0.3", default-features = false }
rand = { version = "0.8.5", features = ["small_rng"] }
