[package]
name = "platformer"
version = "0.1.0"
edition = "2021"
publish = false

[dependencies]
roxmltree = "*"
piston = "*"
piston2d-graphics = "*"
piston_window = "*"
piston2d-opengl_graphics = "*"
