[package]
name = "lance_index"
version = "0.1.0"
edition = "2021"
publish = false

[dependencies]
arrow-arith = "=58.4.0"
arrow-array = "=58.4.0"
lance-linalg = "=13.0.0"
