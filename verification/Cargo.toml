[package]
name = "event_replay"
version = "0.1.0"
edition = "2021"
publish = false

[dependencies]
chrono = "0.4"
json = "0.12"
getopts = "0.2"
