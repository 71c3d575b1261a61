[package]
name = "chip8"
version = "0.1.0"
edition = "2021"
publish = false

[dependencies]
rand = "=0.8.8"
glium = "=0.34.0"
winit = "=0.29.15"
