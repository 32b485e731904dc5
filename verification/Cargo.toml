[package]
name = "pwasm_contract"
version = "0.1.0"
edition = "2021"
publish = false

[dependencies]
bincode = "1"
serde = { version = "1", features = ["derive"] }
tiny-keccak = "1"
bigint = "4"
parity-hash = "1"
either = "1"
lazy_static = "1"
