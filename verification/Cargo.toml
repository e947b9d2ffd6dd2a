[package]
name = "wasmos"
version = "0.1.0"
edition = "2021"
publish = false

[dependencies]
hex = "*"
scraper = "*"
ego-tree = "*"
wasmi = "*"
smoltcp = { version = "*", default-features = false, features = ["alloc", "proto-ipv4", "socket-tcp", "medium-ethernet"] }
rand = "*"
log = "*"
anyhow = "*"
