[package]
name = "byteme"
version = "0.1.0"
edition = "2021"
publish = false

[dependencies]
flate2 = "1"
z85 = "3"
thiserror = "2"
anyhow = "1"
lexopt = "0.3"
