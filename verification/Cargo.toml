[package]
name = "fast_mem"
version = "0.1.0"
edition = "2021"
publish = false

[dependencies]
ahash = "*"
fxhash = "*"
nohash-hasher = "*"
memmap2 = "*"
libc = "*"
