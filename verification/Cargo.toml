[package]
name = "julia_set"
version = "0.1.0"
edition = "2021"
publish = false

[dependencies]
colorgrad = "0.6"
log = "0.4"
pixels = "0.13"
rayon = "1"
winit = "0.28"
winit_input_helper = "0.14"
