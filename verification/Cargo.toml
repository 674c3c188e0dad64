[package]
name = "onion_bridge"
version = "0.1.0"
edition = "2021"
publish = false

[dependencies]
onion-vm = "=0.2.3"
onion-frontend = "=0.1.9"
rust-arc-gc = "=0.2.1"
indexmap = "*"
serde_json = "*"
pyo3 = "=0.25.1"
pyo3-async-runtimes = { version = "=0.25.0", features = ["tokio-runtime"] }
tokio = { version = "*", features = ["time", "rt-multi-thread", "macros"] }
