[package]
name = "hyperscan"
version = "0.3.2"
edition = "2021"
publish = false

[dependencies]
regex-syntax = "*"
semver = "*"
libc = "*"
thiserror = "*"
