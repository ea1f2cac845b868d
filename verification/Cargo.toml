[package]
name = "cached_index"
version = "0.1.0"
edition = "2021"
publish = false

[dependencies]
kstring = "=2.0.2"
tame-index = { version = "=0.25.0", features = ["git", "sparse"] }
