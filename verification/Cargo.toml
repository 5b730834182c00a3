[package]
name = "sandgame"
version = "0.1.0"
edition = "2021"
publish = false

[dependencies]
rand = "0.8"
log = "0.4"
env_logger = "0.9"
winit = "0.26"
pixels = "0.9"
winit_input_helper = "0.12"
