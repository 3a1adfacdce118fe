[package]
name = "cargo_playground"
version = "0.1.0"
edition = "2021"
publish = false

[dependencies]
crossterm = "*"
home = "*"
regex = "*"
structopt = "*"
