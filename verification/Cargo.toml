[package]
name = "dependency-factory"
version = "0.1.0"
edition = "2021"
publish = false

[dependencies]
semver = "1"
anyhow = "1"
clap = { version = "4", features = ["derive"] }
toml_edit = "0.22"
