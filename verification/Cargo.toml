[package]
name = "engine3d"
version = "0.1.0"
edition = "2021"
publish = false

[dependencies]
byteorder = "1"
rand = "0.7"
ggez = "0.5"
