[package]
name = "halfblock"
version = "0.1.0"
edition = "2021"
publish = false

[dependencies]
argparse = "0.2"
image = "0.24"
terminal_size = "*"
