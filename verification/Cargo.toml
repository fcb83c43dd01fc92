[package]
name = "squidtun"
version = "0.1.0"
edition = "2021"
publish = false

[dependencies]
sha1 = "0.6"
rand = "0.4"
clap = "2"
futures = "0.1"
hyper = "0.11"
log = "0.4"
simple_logger = "0.5"
tokio-core = "0.1"
tokio-io = "0.1"
