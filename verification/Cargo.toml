[package]
name = "wedeo"
version = "0.1.0"
edition = "2021"
publish = false

[dependencies]
aligned-vec = "=0.6.4"
audioadapter-buffers = "=2.0.0"
av-bitstream = "=0.2.1"
bitflags = "=2.13.2"
dcv-color-primitives = "=1.0.0"
inventory = "=0.3.25"
rubato = "=1.0.1"
tracing = "=0.1.44"
