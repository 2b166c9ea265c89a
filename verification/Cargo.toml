[package]
name = "appimage_runtime"
version = "0.1.0"
edition = "2021"
publish = false

[dependencies]
anyhow = "1"
backhand = "*"
base62 = "*"
elf = "*"
exec = "*"
glob = "*"
memfd-exec = "*"
nix = { version = "*", features = ["fs"] }
seahash = "*"
selecting = "*"
tempfile = "3"
