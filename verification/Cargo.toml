[package]
name = "ethercrab"
version = "0.1.0"
edition = "2021"
publish = false

[dependencies]
heapless = { version = "0.7", default-features = false }
nom = "7"
packed_struct = "0.10"
pnet = "*"
smol = "1"
embassy-futures = "0.1"
log = "0.4"
