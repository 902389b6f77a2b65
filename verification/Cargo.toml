[package]
name = "breaker_machines"
version = "0.1.0"
edition = "2021"
publish = false

[dependencies]
chrono-machines = "*"
fastrand = "*"
rand = "*"
