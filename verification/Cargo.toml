[package]
name = "ones"
version = "0.1.0"
edition = "2021"
publish = false

[dependencies]
xmas-elf = "*"
log = "0.4"
spin = "0.9"
lazy_static = "1"
