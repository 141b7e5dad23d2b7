[package]
name = "rusty_vm"
version = "0.1.0"
edition = "2021"
publish = false

[dependencies]
colored = "*"
macroquad = { version = "*", default-features = false }
nix = { version = "*", features = ["signal", "process"] }
