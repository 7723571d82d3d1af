[package]
name = "casm_transpiler"
version = "0.1.0"
edition = "2021"
publish = false

[dependencies]
wasmparser = "=0.261.0"
