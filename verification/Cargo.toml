[package]
name = "nyooom_vm"
version = "0.1.0"
edition = "2021"

[dependencies]
funty = "2.0.0"
