[package]
name = "oblw"
version = "0.1.0"
edition = "2021"
publish = false

[dependencies]
bit-vec = "=0.8.0"
rusb = "*"
