[package]
name = "getargv"
version = "0.1.0"
edition = "2021"
publish = false

[dependencies]
getargv-sys = "*"
