[package]
name = "rustc_parts"
version = "0.1.0"
edition = "2021"
publish = false

[dependencies]
gccjit = { version = "=3.7.0", features = ["master", "dlopen"] }
indexmap = "=1.9.3"
rustc_data_structures = "=0.1.2"
