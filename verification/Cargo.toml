[package]
name = "keycheck"
version = "0.1.0"
edition = "2021"
publish = false

[dependencies]
git2 = "*"
ignore = "*"
regex = "*"
dirs = "*"

[dev-dependencies]
tempfile = "*"
