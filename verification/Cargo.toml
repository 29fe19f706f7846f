[package]
name = "golomb"
version = "0.1.0"
edition = "2021"
publish = false

[dependencies]
rayon = "*"
clap = { version = "*", features = ["derive"] }
chrono = "*"
num_cpus = "*"
