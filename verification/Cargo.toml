[package]
name = "stretch"
version = "0.2.2"
edition = "2021"
publish = false

[dependencies]
decorum = "*"
pyo3 = "*"
dict_derive = "*"
