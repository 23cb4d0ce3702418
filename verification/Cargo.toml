[package]
name = "hillclimb_net"
version = "0.1.0"
edition = "2021"
publish = false

[dependencies]
rand = "0.8"
libm = "0.2"
