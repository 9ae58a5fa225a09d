[package]
name = "tileload"
version = "0.1.0"
edition = "2021"
publish = false

[dependencies]
image = "0.24"
tiled = "0.9"
gl = "0.14"
