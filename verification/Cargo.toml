[package]
name = "gravity_tracer"
version = "0.1.0"
edition = "2021"
publish = false

[dependencies]
log = "0.4"
ndarray = "0.15"
ndarray-npy = "0.8"
simple_logger = "4"
