[package]
name = "lazy_diamond_square"
version = "0.1.0"
edition = "2021"
publish = false

[dependencies]
seahash = "*"
tinyrand = "*"
tinyrand-std = "*"
image = { version = "*", default-features = false, features = ["png"] }
