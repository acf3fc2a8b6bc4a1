[package]
name = "geocoder"
version = "0.1.0"
edition = "2021"
publish = false

[dependencies]
geojson = { version = "*", default-features = false }
num_cpus = "*"
