[package]
name = "cedar_schema"
version = "0.1.0"
edition = "2021"
publish = false

[dependencies]
itertools = "0.14"
nonempty = "*"
smol_str = "0.3"
