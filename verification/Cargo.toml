[package]
name = "barf"
version = "0.1.0"
edition = "2021"
publish = false

[dependencies]
nano-leb128 = "*"
vint64 = "*"
