[package]
name = "errai"
version = "0.1.0"
edition = "2021"
publish = false

[dependencies]
hashbrown = "*"
ptab = "*"
dyn-clone = "*"
bitflags = "*"
crossbeam-utils = "*"
parking_lot = "*"
tokio = { version = "*", features = ["rt-multi-thread", "sync", "time", "macros"] }
tracing = "*"
triomphe = "*"
