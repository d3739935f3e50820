[package]
name = "neat"
version = "0.1.0"
edition = "2021"
publish = false

[dependencies]
clap = { version = "4", features = ["derive"] }
nalgebra = "*"
rand = "0.9"
