[package]
name = "tictactoe"
version = "0.1.0"
edition = "2021"
publish = false

[dependencies]
winit = "0.29"
env_logger = "0.11"
