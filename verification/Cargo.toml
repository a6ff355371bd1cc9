[package]
name = "vagga_isolation"
version = "0.1.0"
edition = "2021"
publish = false

[dependencies]
unshare = "*"
regex = "*"
libmount = "*"
argparse = "*"
libc = "*"
