[package]
name = "sshs"
version = "0.1.0"
edition = "2021"
publish = false

[dependencies]
anyhow = "*"
crossterm = "*"
fuzzy-matcher = "*"
handlebars = "*"
portable-pty = "*"
shellexpand = "*"
shlex = "*"
unicode-width = "*"
vt100 = "*"
