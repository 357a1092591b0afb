[package]
name = "deca"
version = "0.1.0"
edition = "2021"

[dependencies]
decasm = "*"
fastrand = "*"
itertools = "*"
octopt = "*"
ux = "*"
