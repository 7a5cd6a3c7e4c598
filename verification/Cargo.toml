[package]
name = "parser_combinators"
version = "0.1.0"
edition = "2021"
publish = false

[dependencies]
unicode-segmentation = "*"
rustc_apfloat = "*"
colored = "*"
