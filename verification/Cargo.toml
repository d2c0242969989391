[package]
name = "way-shell"
version = "0.1.0"
edition = "2021"
publish = false

[dependencies]
shlex = "=1.3.0"
glib = "=0.22.10"
