[package]
name = "rtx_core"
version = "0.1.0"
edition = "2021"
publish = false

[dependencies]
indexmap = "1"
url = "2"
shell-escape = "0.1"
toml_edit = "*"
rayon = "1"
