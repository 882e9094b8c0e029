[package]
name = "runas"
version = "0.1.0"
edition = "2021"
publish = false

[dependencies]
bitflags = "2"
getopts = "0.2"
libc = "0.2"
nix = "0.26"
zeroize = "1"
