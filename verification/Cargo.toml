[package]
name = "d3_delaunay_rs"
version = "0.1.0"
edition = "2021"
publish = false

[dependencies]
delaunator = "=1.1.0"
geo-types = "=0.7.20"
bevy_math = "=0.18.1"
