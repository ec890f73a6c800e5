[package]
name = "vec_vec"
version = "0.1.0"
edition = "2021"
publish = false

[dependencies]
lending-iterator = "*"
nougat = "*"
stack-trait = "*"
