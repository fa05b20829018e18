[package]
name = "pathtracer"
version = "0.1.0"
edition = "2021"
publish = false

[dependencies]
bvh = "0.7"
clap = "4"
glam = "0.23"
image = { version = "0.24", default-features = false, features = ["png", "jpeg", "bmp", "tga"] }
serde_json = "1"
tobj = "3.2"
