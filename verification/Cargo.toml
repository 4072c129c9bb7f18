[package]
name = "icon_registry"
version = "0.1.0"
edition = "2021"
publish = false

[dependencies]
convert_case = "=0.5.0"
proc-macro2 = { version = "=1.0.107", default-features = false }
regex = "=1.13.1"
