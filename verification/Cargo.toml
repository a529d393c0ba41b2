[package]
name = "cosmic_hue"
version = "0.1.0"
edition = "2021"
publish = false

[dependencies]
huelib = "0.13"
palette = "*"
tokio = { version = "1", features = ["time"] }
