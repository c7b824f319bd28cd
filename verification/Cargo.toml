[package]
name = "orbita"
version = "0.1.0"
edition = "2021"
publish = false

[dependencies]
hecs = "0.10"
raylib = "5"
