[package]
name = "aetna"
version = "0.1.0"
edition = "2021"
publish = false

[dependencies]
ash = "0.38"
vk-mem = "0.5"
nalgebra = "=0.35.0"
ultraviolet = "=0.10.0"
