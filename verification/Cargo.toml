[package]
name = "wayland-backend-rs"
version = "0.1.0"
edition = "2021"
publish = false

[dependencies]
nix = "0.26"
smallvec = "1.6"
