[package]
name = "tile_wave"
version = "0.1.0"
edition = "2021"
publish = false

[dependencies]
druid = { version = "0.7", features = ["im"] }
image = "0.23"
rand = "0.7"
