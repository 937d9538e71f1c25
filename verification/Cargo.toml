[package]
name = "zkvm_bench"
version = "0.1.0"
edition = "2021"
publish = false

[dependencies]
bincode = "=1.3.3"
risc0-zkvm = { version = "=1.2.6", default-features = false }
