[package]
name = "flowgrid"
version = "0.1.0"
edition = "2021"
publish = false

[dependencies]
glium = "0.34"
glutin = "0.31"
glutin-winit = "0.4"
imgui = "0.12"
imgui-glium-renderer = "0.12"
imgui-winit-support = "0.12"
nalgebra = "0.32"
raw-window-handle = "0.5"
winit = { version = "0.29", features = ["rwh_05"] }
