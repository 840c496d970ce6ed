[package]
name = "habitat_builder"
version = "0.1.0"
edition = "2021"
publish = false

[dependencies]
protobuf = "1"
rand = "0.4"
time = "0.1"
walkdir = "1"
zmq = "0.10"
