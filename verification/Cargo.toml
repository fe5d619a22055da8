[package]
name = "ergo"
version = "0.1.0"
edition = "2021"
publish = false

[dependencies]
crossbeam-channel = "0.5"
glob = "0.3"
num_cpus = "1"
path_abs = "0.5"
shellexpand = "3"
tar = "0.4"
tempdir = "0.3"
walkdir = "2"
