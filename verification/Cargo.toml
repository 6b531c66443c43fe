[package]
name = "vertex_buffers"
version = "0.1.0"
edition = "2021"
publish = false

[dependencies]
rand = "*"
rand_chacha = "*"
bytemuck = "*"
