[package]
name = "shiny"
version = "0.1.0"
edition = "2021"
publish = false

[dependencies]
metrohash = "1.0"
