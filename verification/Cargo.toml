[package]
name = "blitz-dom"
version = "0.1.0"
edition = "2021"
publish = false

[dependencies]
wuff = "*"
usvg = "0.46"
color = "0.3"
