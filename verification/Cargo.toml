[package]
name = "fos"
version = "0.1.0"
edition = "2021"

[dependencies]
console = "0.15"
