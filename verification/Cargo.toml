[package]
name = "crashtest_harness"
version = "0.1.0"
edition = "2021"
publish = false

[dependencies]
url = "2"
walkdir = "2"
rayon = "1"
log = "0.4"
env_logger = "0.10"
tempdir = "0.3"
wait-timeout = "0.2"
clap = "2"
