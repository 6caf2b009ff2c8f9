[package]
name = "rpmsgfs"
version = "0.1.0"
edition = "2021"
publish = false

[dependencies]
bincode = "1.3"
log = "0.4"
nix = { version = "0.30", features = ["fs"] }
