[package]
name = "sylver_script"
version = "0.1.0"
edition = "2021"
publish = false

[dependencies]
rustpython-parser = "=0.4.0"
rustpython-codegen = "=0.4.0"
rustpython-vm = "=0.4.0"
glob = "0.3"
