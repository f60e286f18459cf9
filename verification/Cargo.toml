[package]
name = "bootstrap"
version = "0.1.0"
edition = "2021"
publish = false

[dependencies]
reqwest = { version = "0.11", default-features = false, features = ["blocking", "rustls-tls"] }
nix = "0.26"
url = "2"
semver = "1"
shlex = "1"
chrono = "0.4"
clap = "2"
exec = "0.3"
walkdir = "2"
