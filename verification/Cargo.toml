[package]
name = "gpu_temp_reader"
version = "0.1.0"
edition = "2021"
publish = false

[dependencies]
crossterm = "*"
log = "*"
simplelog = "*"
