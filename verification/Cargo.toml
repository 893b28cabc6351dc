[package]
name = "brawl_geom"
version = "0.1.0"
edition = "2021"
publish = false

[dependencies]
byteorder = "*"
cgmath = "*"
getopts = "*"
log = "*"
