[package]
name = "reference_safety"
version = "0.1.0"
edition = "2021"
publish = false

[dependencies]
move-core-types = "0.0.3"
