[package]
name = "stake_program"
version = "0.1.0"
edition = "2021"
publish = false

[dependencies]
jsonrpc-core = "14"
jsonrpc-http-server = "14"
tokio = "0.1"
tokio-fs = "0.1"
tokio-io = "0.1"
