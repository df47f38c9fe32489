[package]
name = "rust_rocksdb"
version = "0.51.0"
edition = "2021"
publish = false

[dependencies]
libc = "0.2"
