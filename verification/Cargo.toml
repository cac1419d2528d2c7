[package]
name = "flightcore"
version = "0.1.0"
edition = "2021"
publish = false

[dependencies]
anyhow = "*"
bevy_ecs = "*"
glam = "*"
macroquad = "*"
miniquad = "*"
tobj = { version = "*", features = ["async"] }
