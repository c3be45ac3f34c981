[package]
name = "pubsub"
version = "0.1.0"
edition = "2021"
publish = false

[dependencies]
bincode = "1"
zmq = "0.10"
ctrlc = "3"
timer = "0.2"
chrono = "0.4"
