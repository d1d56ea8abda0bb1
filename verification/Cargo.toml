[package]
name = "matmul"
version = "0.1.0"
edition = "2021"
publish = false

[dependencies]
rand = "0.9"
rayon = "1"
rustc_apfloat = "0.2"
num_cpus = "1"
