[package]
name = "hex_terrain"
version = "0.1.0"
edition = "2021"
publish = false

[dependencies]
noise = "*"
clap = { version = "*", features = ["derive"] }

[dev-dependencies]
hexx = "*"
