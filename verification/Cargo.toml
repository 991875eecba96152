[package]
name = "curlyc"
version = "0.1.0"
edition = "2021"
publish = false

[dependencies]
colored = "*"
log = "*"
env_logger = "*"
