[package]
name = "line_view"
version = "0.1.0"
edition = "2021"
publish = false

[dependencies]
quad-rand = "*"
glam = "*"
miniquad = "0.3"
