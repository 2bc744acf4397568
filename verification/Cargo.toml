[package]
name = "drewno_mars"
version = "0.1.0"
edition = "2021"
publish = false

[dependencies]
indoc = "2"
