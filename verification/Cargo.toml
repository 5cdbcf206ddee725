[package]
name = "asteroid_sim"
version = "0.1.0"
edition = "2021"
publish = false

[dependencies]
rand = "0.9"
xml-rs = "0.8"
