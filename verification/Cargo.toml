[package]
name = "countdown"
version = "0.1.0"
edition = "2021"
publish = false

[dependencies]
anyhow = "1"
humantime = "2"
log = "0.4"
simplelog = "*"
structopt = "0.3"
term = "*"
