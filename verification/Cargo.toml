[package]
name = "parallel_iterator"
version = "0.1.0"
edition = "2021"
publish = false

[dependencies]
crossbeam-channel = "=0.5.17"
num_cpus = "=1.17.0"

[dev-dependencies]
crossbeam-utils = "=0.8.23"
