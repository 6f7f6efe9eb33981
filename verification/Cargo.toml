[package]
name = "my-sudt-info"
version = "0.1.0"
edition = "2021"
publish = false

[dependencies]
ckb-std = "*"

[dev-dependencies]
hex = "0.4"
