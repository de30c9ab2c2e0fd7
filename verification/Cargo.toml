[package]
name = "rv6"
version = "0.1.0"
edition = "2021"
publish = false

[dependencies]
bitflags = "*"
spin = "*"
fdt = "*"
cpio = "*"
