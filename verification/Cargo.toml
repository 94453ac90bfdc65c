[package]
name = "cs2_dumper"
version = "0.1.0"
edition = "2021"
publish = false

[dependencies]
regex-syntax = "0.8"
chrono = "0.4"
log = "0.4"
anyhow = "1"
