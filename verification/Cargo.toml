[package]
name = "hir_expand"
version = "0.1.0"
edition = "2021"
publish = false

[dependencies]
either = "1.6.1"
itertools = "0.10.0"
rustc-hash = "1.1.0"
smallvec = "1.2.0"
