[package]
name = "scriptkeeper"
version = "0.1.0"
edition = "2021"
publish = false

[dependencies]
yaml-rust = "=0.4.5"
linked-hash-map = "=0.5.6"
regex = "=1.13.1"
quale = "=1.0.0"
clap = "=2.34.0"
trim-margin = "=0.1.0"
nix = { version = "=0.31.3", features = ["ptrace", "process", "signal", "fs"] }
libc = "=0.2.191"
bincode = "=1.3.3"
serde = { version = "=1.0.229", features = ["derive"] }
memoffset = "=0.9.1"
tempdir = "=0.3.7"
