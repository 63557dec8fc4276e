[package]
name = "rustaxa_vdf"
version = "0.1.0"
edition = "2021"
publish = false

[dependencies]
num-bigint = "*"
num-traits = "*"
astro-float = "*"

[dev-dependencies]
rand = "*"
rand_chacha = "*"
rlp = "*"
