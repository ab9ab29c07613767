[package]
name = "connect_four"
version = "0.1.0"
edition = "2021"
publish = false

[dependencies]
anyhow = "1"
colored = "*"
crossterm = "*"
strip-ansi = "*"
unicode-segmentation = "1"
