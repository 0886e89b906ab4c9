[package]
name = "ocaml-rs-smartptr"
version = "0.1.0"
edition = "2021"
publish = false

[dependencies]
inventory = "*"

[dev-dependencies]
regex = "*"
