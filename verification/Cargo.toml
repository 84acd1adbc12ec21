[package]
name = "special"
version = "0.1.0"
edition = "2021"
publish = false

[dependencies]
libm = "*"
lambert_w = "*"
ellip = "*"
