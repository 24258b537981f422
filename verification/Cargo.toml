[package]
name = "skunkworks"
version = "0.1.0"
edition = "2021"
publish = false

[dependencies]
cgmath = "0.16"
ggez = "0.5"
nalgebra = "0.18"
rand = "0.4"
