[package]
name = "mutest"
version = "0.1.0"
edition = "2021"
publish = false

[dependencies]
rand = "=0.8.8"
rustc-hash = "=1.1.0"
smallvec = "=1.16.4"
phf = "=0.11.3"
itertools = "=0.12.1"
thin-vec = "=0.2.21"

[dev-dependencies]
phf_generator = "0.11"
