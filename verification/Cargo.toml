[package]
name = "stl_thumb"
version = "0.1.0"
edition = "2021"
publish = false

[dependencies]
bytemuck = "*"
glam = { version = "*", features = ["bytemuck"] }
image = { version = "*", default-features = false, features = ["png", "jpeg", "gif", "ico", "bmp"] }
libc = "*"
stl_io = "*"
threemf = "*"
tobj = "*"
tokio = { version = "*", features = ["rt-multi-thread"] }
wgpu = "*"
