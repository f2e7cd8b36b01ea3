[package]
name = "sarchive"
version = "0.1.0"
edition = "2021"
publish = false

[dependencies]
chrono = { version = "=0.4.45", default-features = false, features = ["clock"] }
clap = "=4.6.7"
crossbeam-channel = "=0.5.17"
crossbeam-utils = "=0.8.23"
fern = { version = "=0.7.1", features = ["reopen-1"] }
libc = "=0.2.191"
log = "=0.4.34"
notify = "=8.2.0"
signal-hook = "=0.4.5"
