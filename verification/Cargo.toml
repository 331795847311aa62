[package]
name = "wasm_central"
version = "0.1.0"
edition = "2021"
publish = false

[dependencies]
sha2 = "=0.10.9"
wasmtime = "=48.0.5"
wasmtime-wasi = "=48.0.5"
libc = "=0.2.190"
fork = "=0.10.0"
nc = "=0.9.8"
memfile = "=0.3.2"
clap = { version = "=4.6.7", features = ["derive"] }
console = "=0.16.6"
thiserror = "=2.0.21"
