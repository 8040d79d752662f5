[package]
name = "tari_comms"
version = "0.1.0"
edition = "2021"
publish = false

[dependencies]
log = "=0.4.35"
tari_utilities = "=0.0.7"
