[package]
name = "anx"
version = "0.1.0"
edition = "2021"
publish = false

[dependencies]
anyhow = "=1.0.104"
clap = { version = "=4.6.7", features = ["derive"] }
thiserror = "=2.0.21"
inkwell = { version = "=0.11.0", features = ["llvm21-1"] }
