[package]
name = "moldyn"
version = "0.1.0"
edition = "2021"
publish = false

[dependencies]
itertools = "0.12"
nalgebra = "0.32"
rand = "0.8"
rand_distr = "0.4"
rayon = "1"
clap = { version = "4", features = ["derive"] }
csv = "1"
serde = { version = "1", features = ["derive"] }
serde_json = "1"
indicatif = "0.17"
env_logger = "0.10"
