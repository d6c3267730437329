[package]
name = "cu_automotive"
version = "0.1.0"
edition = "2021"
publish = false

[dependencies]
cu29 = "*"
