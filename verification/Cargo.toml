[package]
name = "flexy_reds"
version = "0.1.0"
edition = "2021"
publish = false

[dependencies]
tl = "=0.6.3"
stretch = "=0.3.2"
