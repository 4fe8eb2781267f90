[package]
name = "gakuyukai_engine"
version = "0.1.0"
edition = "2021"
publish = false

[dependencies]
calamine = "*"
rayon = "*"
rust_xlsxwriter = "*"
cli-table = "*"
