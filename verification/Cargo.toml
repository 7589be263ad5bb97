[package]
name = "void_runtime"
version = "0.1.0"
edition = "2021"
publish = false

[dependencies]
aligned-vec = "=0.6.4"
atomic_refcell = "=0.1.14"
glam = "=0.34.2"
convert_case = "0.6"
regex = "1"
serde = { version = "1", features = ["derive"] }
serde_json = "1"
anyhow = "1"
tempdir = "0.3"
clap = { version = "4", features = ["derive"] }
