[package]
name = "car"
version = "0.1.0"
edition = "2021"
publish = false

[dependencies]
flate2 = "1"
xz2 = "0.1"
bzip2 = "*"
brotli2 = "*"
zstd = "*"
lz4 = "*"
snap = "*"
tar = "0.4"
clap = "2"
regex = "1"
walkdir = "2"

[dev-dependencies]
quickcheck = "1"
rand = "0.8"
