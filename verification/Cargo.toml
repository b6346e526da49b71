[package]
name = "existing_instance"
version = "0.1.0"
edition = "2021"
publish = false

[dependencies]
interprocess = "2"
log = "0.4"
