[package]
name = "bread"
version = "0.1.0"
edition = "2021"
publish = false

[dependencies]
crossbeam = "0.8"
image = { version = "0.23", default-features = false, features = ["png"] }
num = "0.4"
palette = { version = "0.5", default-features = false, features = ["std"] }
rand = { version = "0.8", features = ["small_rng"] }
rand_distr = "0.4"
