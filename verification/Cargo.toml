[package]
name = "sysinfo"
version = "0.1.0"
edition = "2021"
publish = false

[dependencies]
chrono = { version = "*", default-features = false }
getopts = "*"
log = "*"
sys-info = "*"
systemstat = "*"
