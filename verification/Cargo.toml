[package]
name = "chumby"
version = "0.1.0"
edition = "2021"
publish = false

[dependencies]
md-5 = "=0.10.6"
toml = "=0.8.23"
libc = "=0.2.191"
tracing = "=0.1.44"
