[package]
name = "stamp_tree"
version = "0.1.0"
edition = "2021"
publish = false

[dependencies]
chrono = "0.4"
clap = "4"
filetime = "0.2"
walkdir = "2"
