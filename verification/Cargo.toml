[package]
name = "academy_pow"
version = "0.1.0"
edition = "2021"
publish = false

[dependencies]
md5 = "0.7"
sha3 = "0.10"

[dev-dependencies]
parity-scale-codec = "3"
hex = "0.4"
