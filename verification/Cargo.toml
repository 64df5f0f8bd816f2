[package]
name = "fractal"
version = "0.1.0"
edition = "2021"
publish = false

[dependencies]
clap = "4"
glow = "0.13"
glutin = "0.31"
glutin-winit = "0.4"
nalgebra = "0.32"
raw-window-handle = "0.5"
winit = "0.29"
