[package]
name = "multi_bit_pbs_grouping"
version = "0.1.0"
edition = "2021"
publish = false

[dependencies]
tfhe = { version = "=0.8.7", features = ["shortint", "x86_64-unix"] }
aligned-vec = "0.5"
concrete-fft = "0.5"
criterion = "0.5"
