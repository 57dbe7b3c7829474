[package]
name = "voxel_mesh"
version = "0.1.0"
edition = "2021"
publish = false

[dependencies]
glium = "=0.36.0"
nalgebra = "=0.35.0"
rand = "=0.10.3"
rustc-serialize = "=0.3.25"
