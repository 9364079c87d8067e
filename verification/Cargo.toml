[package]
name = "fsbench"
version = "0.1.0"
edition = "2021"
publish = false

[dependencies]
libc = "0.2"
nix = "0.26"
log = "0.4"
fern = "0.6"
chrono = "0.4"
clap = "2"
rand = "0.8"
rayon = "1"
serde = "1"
serde_derive = "1"
serde_json = "1"
tempdir = "0.3"
