[package]
name = "tfocus"
version = "0.1.0"
edition = "2021"
publish = false

[dependencies]
regex = "1"
ctrlc = "3"
nix = { version = "*", features = ["signal"] }
log = "0.4"
