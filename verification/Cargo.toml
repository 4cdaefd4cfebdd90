[package]
name = "tapasco"
version = "0.1.0"
edition = "2021"
publish = false

[dependencies]
config = "=0.15.27"
memmap = "=0.7.0"
nix = { version = "=0.31.3", features = ["ioctl"] }
