[package]
name = "rt"
version = "0.1.0"
edition = "2021"

[dependencies]
cgmath = "0.16"
noisy_float = "0.1"
palette = "0.2"
rand = "0.4"
