[package]
name = "indexed_run"
version = "0.1.0"
edition = "2021"
publish = false

[dependencies]
smallvec = "1"
memchr = "2"
rustc-hash = "2"
