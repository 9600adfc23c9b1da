[package]
name = "linedit"
version = "0.1.0"
edition = "2021"
publish = false

[dependencies]
console = "0.15"
crossterm = "0.27"
better-panic = "0.3"
