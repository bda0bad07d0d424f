[package]
name = "nxfs"
version = "0.1.0"
edition = "2021"
publish = false

[dependencies]
aes = "=0.7.5"
ctr = "=0.8.0"
block-modes = "=0.8.1"
xts-mode = "=0.4.1"
hex = "=0.4.3"
