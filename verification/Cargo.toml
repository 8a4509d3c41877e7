[package]
name = "bytecode_circuit"
version = "0.1.0"
edition = "2021"
publish = false

[dependencies]
array-init = "=2.1.0"
halo2-axiom = "*"
sha3 = "=0.10.9"
