[package]
name = "locale_strings"
version = "0.1.0"
edition = "2021"
publish = false

[dependencies]
locale-codes = "*"
