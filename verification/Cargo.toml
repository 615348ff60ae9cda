[package]
name = "chip_8"
version = "0.1.0"
edition = "2021"
publish = false

[dependencies]
rand = "0.9"
serde_json = "1"
crossterm = "0.28"
winit = "0.30"
softbuffer = "0.4"
simply_colored = "*"
