[package]
name = "ingles"
version = "0.1.0"
edition = "2021"
publish = false

[dependencies]
log = "0.4"
rand = "0.7"
regex = "1"
simple_logger = "1"
