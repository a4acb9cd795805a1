[package]
name = "sim_core"
version = "0.1.0"
edition = "2021"

[dependencies]
cpal = "=0.15.3"
num-complex = "=0.4.6"
realfft = "=3.5.0"
