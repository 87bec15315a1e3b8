[package]
name = "xrpl_bridge"
version = "0.1.0"
edition = "2021"
publish = false

[dependencies]
log = "0.4"
primitive-types = "*"
sp-arithmetic = "*"
sp-weights = "*"
