[package]
name = "order_insensitive_compare"
version = "0.1.0"
edition = "2021"
publish = false

[dependencies]
ahash = "0.8"
blake3 = { version = "1", features = ["pure"] }
rayon = "1"
sha2 = "0.9"
