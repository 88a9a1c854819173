[package]
name = "spectrs"
version = "0.1.0"
edition = "2021"
publish = false

[dependencies]
anyhow = "=1.0.104"
clap = { version = "=4.6.7", features = ["derive"] }
hound = "=3.5.1"
image = { version = "=0.25.10", default-features = false, features = ["png"] }
rayon = "=1.12.0"
rubato = "=0.16.2"
rustfft = "=6.4.1"
walkdir = "=2.5.0"
