[package]
name = "jj_bench"
version = "0.1.0"
edition = "2021"
publish = false

[dependencies]
clap = { version = "~4.4", features = ["derive"] }
criterion = "0.5.1"
