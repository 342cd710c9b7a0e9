[package]
name = "luma"
version = "0.1.0"
edition = "2021"
publish = false

[dependencies]
vello = "*"
winit = "0.30"
bytemuck = { version = "1", features = ["derive"] }
pollster = "*"
tracing = "*"
tracing-subscriber = "*"
color-eyre = "*"
syn = { version = "2", features = ["full"] }
quote = "1"
proc-macro2 = "1"
