[package]
name = "parse-references"
version = "0.1.0"
edition = "2021"
publish = false

[dependencies]
regex = "=1.13.1"
nom-bibtex = "=0.3.0"
