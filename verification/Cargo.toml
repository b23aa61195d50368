[package]
name = "kira"
version = "0.1.0"
edition = "2021"
publish = false

[dependencies]
atomic = "0.5"
bimap = "0.5"
cpal = "0.13"
flume = { version = "0.10", default-features = false }
indexmap = "1"
lewton = "0.10"
nanorand = "0.5"
serde = "1"
