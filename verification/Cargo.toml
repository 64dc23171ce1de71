[package]
name = "move_bytecode_to_wasm"
version = "0.1.0"
edition = "2021"
publish = false

[dependencies]
alloy-primitives = "*"
alloy-sol-types = "*"
walrus = "0.23"
