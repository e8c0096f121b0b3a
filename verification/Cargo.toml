[package]
name = "galar"
version = "0.1.0"
edition = "2021"
publish = false

[dependencies]
rand = "*"
minifb = "*"
image = { version = "*", default-features = false, features = ["png"] }
