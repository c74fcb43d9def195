[package]
name = "anne_plotter"
version = "0.1.0"
edition = "2021"
publish = false

[dependencies]
libc = "*"
clap = "*"
crossbeam-channel = "*"
page_size = "*"
sys-info = "*"
fs2 = "*"
indicatif = "*"
thread-priority = "*"
