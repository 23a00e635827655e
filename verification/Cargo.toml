[package]
name = "shn2xml"
version = "0.1.0"
edition = "2021"
publish = false

[dependencies]
docopt = "=1.1.1"
encoding = "=0.2.33"
