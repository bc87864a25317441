[package]
name = "haitaka_usi"
version = "0.1.0"
edition = "2021"
publish = false

[dependencies]
haitaka-types = "*"
