[package]
name = "tropical"
version = "0.1.0"
edition = "2021"
publish = false

[dependencies]
ndarray = "*"
auto_ops = "*"
num-traits = "*"
