[package]
name = "worldgen"
version = "0.1.0"
edition = "2021"

[dependencies]
rand = "=0.8.8"
noise = "=0.8.2"
rayon = "=1.12.0"
