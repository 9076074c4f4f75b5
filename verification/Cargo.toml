[package]
name = "conmon_server"
version = "0.1.0"
edition = "2021"
publish = false

[dependencies]
anyhow = "=1.0.104"
capnp = "=0.14.11"
capnp-rpc = "=0.14.1"
libc = "0.2"
log = "=0.4.34"
