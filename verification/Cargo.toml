[package]
name = "horae"
version = "0.1.0"
edition = "2021"
publish = false

[dependencies]
aequitas = "*"
eunomia = "*"
