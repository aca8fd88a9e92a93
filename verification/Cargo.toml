[package]
name = "hydra"
version = "0.0.1"
edition = "2021"
publish = false

[dependencies]
solicit = "=0.4.4"
hpack = "=0.2.0"
hyper = { version = "=0.9.18", default-features = false }
httparse = "=1.10.1"
mio = "=0.5.1"
log = "=0.4.35"
