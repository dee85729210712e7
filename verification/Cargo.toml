[package]
name = "fslibre"
version = "0.1.0"
edition = "2021"
publish = false

[dependencies]
chrono = "0.4"
image = "0.24"
plotters = "0.3"
