[package]
name = "tile_rack"
version = "0.1.0"
edition = "2021"
publish = false

[dependencies]
itertools = "0.10"
ggez = "0.7"
mint = "0.5"
