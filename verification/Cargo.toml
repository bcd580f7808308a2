[package]
name = "fusenbd"
version = "0.1.0"
edition = "2021"
publish = false

[dependencies]
bufstream = "=0.1.4"
fuse = "=0.3.1"
libc = "=0.2.191"
nbd = "=0.2.3"
structopt = "=0.2.18"
time = "=0.1.45"
