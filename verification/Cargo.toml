[package]
name = "osbuild"
version = "0.1.0"
edition = "2021"
publish = false

[dependencies]
ar = "*"
cpio = "*"
lz4_flex = "*"
pico-args = "*"
rayon = "*"
toml = "*"
walkdir = "*"
