[package]
name = "srml-babe"
version = "0.1.0"
edition = "2021"
publish = false

[dependencies]
parity-scale-codec = "1"
blake2-rfc = "0.2.18"
ansi_term = "0.12"
rand = "0.7"
structopt = "0.3"
