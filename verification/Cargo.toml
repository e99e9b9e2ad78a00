[package]
name = "key_gateway"
version = "0.1.0"
edition = "2021"
publish = false

[dependencies]
enigo = "*"
neon = "1"
once_cell = "1"
