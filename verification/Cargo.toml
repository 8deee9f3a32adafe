[package]
name = "raster_codec"
version = "0.1.0"
edition = "2021"
publish = false

[dependencies]
num-complex = "*"
image = { version = "*", default-features = false }
