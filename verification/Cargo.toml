[package]
name = "simcore"
version = "0.1.0"
edition = "2021"
publish = false

[dependencies]
rapier3d = "=0.22.0"
crossbeam = "=0.8.5"
wide = "=1.7.1"
