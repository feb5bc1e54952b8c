[package]
name = "mandelbrot"
version = "0.1.0"
edition = "2021"
publish = false

[dependencies]
crossbeam = "=0.8.5"
image = "=0.25.10"
nix = { version = "*", features = ["time"] }
rayon = "=1.12.0"
scoped_threadpool = "=0.1.9"
