[package]
name = "csv2md"
version = "0.1.0"
edition = "2021"
publish = false

[dependencies]
csv = "1"
clap = "2"
