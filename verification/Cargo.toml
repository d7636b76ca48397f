[package]
name = "clap_nested"
version = "0.4.0"
edition = "2021"
publish = false

[dependencies]
clap = "2"

[dev-dependencies]
regex = "1"
