[package]
name = "nextcore_gpu"
version = "0.1.0"
edition = "2021"
publish = false

[dependencies]
ash = "0.38"
serde = { version = "1", features = ["derive"] }
thiserror = "2"
log = "0.4"
