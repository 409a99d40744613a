[package]
name = "stainless_extraction"
version = "0.1.0"
edition = "2021"
publish = false

[dependencies]
bumpalo = "3"
num-bigint = "0.4"
