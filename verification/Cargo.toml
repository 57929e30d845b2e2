[package]
name = "gradle_profiler"
version = "0.1.0"
edition = "2021"
publish = false

[dependencies]
anyhow = "*"
clap = { version = "*", features = ["derive"] }
colored = "*"
tabled = "*"
walkdir = "*"
