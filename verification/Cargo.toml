[package]
name = "nh"
version = "0.1.0"
edition = "2021"
publish = false

[dependencies]
semver = "1"
nix = { version = "*", features = ["user", "fs"] }
humantime = "2"
