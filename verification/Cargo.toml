[package]
name = "raytracer"
version = "0.1.0"
edition = "2021"

[dependencies]
pixels = "0.9"
winit = "0.26"
winit_input_helper = "0.11"
