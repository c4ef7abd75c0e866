[package]
name = "aar"
version = "0.1.0"
edition = "2021"
publish = false

[dependencies]
image = { version = "*", default-features = false, features = ["png", "jpeg", "bmp", "gif"] }
wgpu = "*"
pollster = "*"
bytemuck = "*"
flume = "*"
clap = { version = "*", features = ["derive"] }
crossterm = "*"
ctrlc = "*"
