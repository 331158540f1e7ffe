[package]
name = "gridsim_ui"
version = "0.1.0"
edition = "2021"
publish = false

[dependencies]
rayon = "=1.12.0"
glium = "=0.36.0"
gridsim = "=0.2.4"
