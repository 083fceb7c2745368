[package]
name = "canfuzz"
version = "0.1.0"
edition = "2021"
publish = false

[dependencies]
rand = "0.9"
num-bigint = "0.4"
num-traits = "0.2"
naughty-strings = "0.2"
wirm = "*"
candid = "0.10"
candid_parser = "*"
libafl = "0.15"
libafl_bolts = "0.15"
serde = { version = "1", features = ["derive"] }
