[package]
name = "yadot"
version = "0.1.0"
edition = "2021"
publish = false

[dependencies]
clap = "*"
saphyr = "*"
saphyr-parser = "*"
yaml-rust = "*"
