[package]
name = "apas_75"
version = "0.1.0"
edition = "2021"
publish = false

[dependencies]
toml_edit = "0.22"
