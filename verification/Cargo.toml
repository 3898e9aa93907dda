[package]
name = "wormhole"
version = "0.1.0"
edition = "2021"
publish = false

[dependencies]
librsync = "*"
libc = "0.2"
