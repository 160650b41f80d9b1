[package]
name = "chip_egg"
version = "0.1.0"
edition = "2021"
publish = false

[dependencies]
fastrand = "*"
env_logger = "*"
pollster = "*"
pixels = "0.11"
winit = "0.27"
