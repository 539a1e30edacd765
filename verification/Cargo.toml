[package]
name = "canviewer"
version = "0.1.0"
edition = "2021"
publish = false

[dependencies]
can-dbc = "*"

[dev-dependencies]
bitreader = "*"
