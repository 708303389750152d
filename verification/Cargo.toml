[package]
name = "forth_parser"
version = "0.1.0"
edition = "2021"
publish = false

[dependencies]
aleph-syntax-tree = "*"
