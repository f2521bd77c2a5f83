[package]
name = "delays"
version = "0.1.0"
edition = "2021"
publish = false

[dependencies]
cortex-a = { version = "=8.1.1", features = ["nightly"] }
tock-registers = "=0.8.1"
volatile-register = "=0.2.2"
