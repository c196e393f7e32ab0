[package]
name = "pkgbundle"
version = "0.1.0"
edition = "2021"
publish = false

[dependencies]
alpm-buildinfo = "*"
alpm-compress = "*"
alpm-mtree = "*"
alpm-package = "*"
alpm-types = "*"
ar = "=0.9.0"
backhand = "*"
blake2 = "=0.11.0"
bzip2 = "*"
flate2 = "=1.1.10"
futures-util = "*"
hex = "=0.4.3"
liblzma = "*"
md-5 = "=0.11.0"
reqwest = { version = "*", default-features = false }
rpm = "*"
sha1 = "=0.11.0"
sha2 = "=0.11.0"
tar = "=0.4.46"
time = "*"
tokio = { version = "*", features = ["fs", "io-util", "rt", "macros"] }
walkdir = "*"
zstd = "*"
