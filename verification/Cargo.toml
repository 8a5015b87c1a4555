[package]
name = "downtone_level"
version = "0.1.0"
edition = "2021"
publish = false

[dependencies]
fastrand = "1"
ggez = "0.5.1"
