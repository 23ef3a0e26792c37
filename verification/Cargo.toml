[package]
name = "udp"
version = "0.1.0"
edition = "2021"
publish = false

[dependencies]
smoltcp = { version = "0.11", default-features = false, features = ["std", "medium-ip", "medium-ethernet", "proto-ipv4", "proto-ipv6", "socket-udp", "async"] }
embassy-net-driver = "0.2"
embedded-io-async = "0.6"
embedded-nal-async = "0.7"
