[package]
name = "bpf_maps"
version = "0.1.0"
edition = "2021"
publish = false

[dependencies]
zero = "0.1"
bpf-sys = "0.9"
