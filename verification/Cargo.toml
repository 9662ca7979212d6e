[package]
name = "precise_number"
version = "0.1.0"
edition = "2021"
publish = false

[dependencies]
primitive-types = "*"
