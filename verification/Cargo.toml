[package]
name = "pkginfo"
version = "0.1.0"
edition = "2021"
publish = false

[dependencies]
semver = "1"
anstyle = "1"
anyhow = "1"
pathdiff = "0.2"
