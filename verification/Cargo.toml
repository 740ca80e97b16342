[package]
name = "minstant"
version = "0.1.0"
edition = "2021"
publish = false

[dependencies]
ctor = "0.1"
