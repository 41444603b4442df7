[package]
name = "wasm_runtime"
version = "0.1.0"
edition = "2021"
publish = false

[dependencies]
smallvec = "1"
itertools = "*"
memmap2 = "*"
thiserror = "*"

[dev-dependencies]
rand = "0.8"
