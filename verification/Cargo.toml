[package]
name = "convolution"
version = "0.1.0"
edition = "2021"

[dependencies]
rand = "0.9"
