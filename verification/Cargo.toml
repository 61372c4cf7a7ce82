[package]
name = "road_intersection"
version = "0.1.0"
edition = "2021"
publish = false

[dependencies]
sdl2 = "*"
resvg = "*"
tiny-skia = "*"
