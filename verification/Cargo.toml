[package]
name = "axfs"
version = "0.1.0"
edition = "2021"
publish = false

[dependencies]
axerrno = "0.1"
log = "0.4"
spin = "0.9"
