[package]
name = "expression_parser"
version = "0.1.0"
edition = "2021"
publish = false

[dependencies]
tendril = "0.4"
