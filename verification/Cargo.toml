[package]
name = "service_registry"
version = "0.1.0"
edition = "2021"
publish = false

[dependencies]
once_cell = "1"
inventory = "0.3"
