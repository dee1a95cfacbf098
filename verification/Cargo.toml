[package]
name = "butterfly"
version = "0.1.0"
edition = "2021"
publish = false

[dependencies]
ahash = "0.8"
libafl = { version = "0.15", default-features = false, features = ["std"] }
libafl_bolts = { version = "0.15", default-features = false, features = ["std", "alloc", "xxh3"] }
serde = { version = "1", features = ["derive"] }
