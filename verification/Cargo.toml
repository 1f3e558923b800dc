[package]
name = "guitar_synth"
version = "0.1.0"
edition = "2021"
publish = false

[dependencies]
anyhow = "1"
itertools = "0.12"
rand = "0.8"
