[package]
name = "pathtracer"
version = "0.1.0"
edition = "2021"
publish = false

[dependencies]
rand = "0.8.5"
image = { version = "*", default-features = false, features = ["png"] }
indicatif = "*"
console = "*"
rayon = "*"
tobj = "*"
stb_image = "*"
