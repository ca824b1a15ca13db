[package]
name = "ocl_plotter"
version = "0.1.0"
edition = "2021"
publish = false

[dependencies]
ocl-core = "=0.11.5"
