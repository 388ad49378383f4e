[package]
name = "thruster"
version = "0.1.0"
edition = "2021"
publish = false

[dependencies]
image = "*"
pdqselect = "*"
ron = "*"
scoped_threadpool = "*"
serde = "*"
serde_derive = "*"
