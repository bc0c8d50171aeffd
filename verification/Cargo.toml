[package]
name = "consensus_harness"
version = "0.1.0"
edition = "2021"
publish = false

[dependencies]
rand = "0.8"
flume = "0.11"
async-std = "1"
futures = "0.3"
