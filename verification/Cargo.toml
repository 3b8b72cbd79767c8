[package]
name = "f_log"
version = "0.1.0"
edition = "2021"
publish = false

[dependencies]
chrono = "0.4"
crossbeam-channel = "0.5"
crossbeam-queue = "0.3"
lazy_static = "1"
smallvec = "1"
