[package]
name = "imgview"
version = "0.1.0"
edition = "2021"

[dependencies]
image = "0.24"
rand = "0.8"
miniquad = "0.3"
