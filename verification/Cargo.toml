[package]
name = "mop"
version = "0.1.0"
edition = "2021"
publish = false

[dependencies]
id3 = "1"
url = "1.7"
xml-rs = "0.8"
log = "0.4"
env_logger = "0.9"
chrono = "0.4"
clap = "2"
curl = { version = "0.4", default-features = false }
