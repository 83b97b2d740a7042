[package]
name = "archive"
version = "0.1.0"
edition = "2021"
publish = false

[dependencies]
anyhow = "=1.0.104"
clap = { version = "=4.6.7", features = ["derive"] }
walkdir = "=2.5.0"
tar = "=0.4.46"
zip = "=2.6.1"
xz2 = "=0.1.7"
sevenz-rust2 = "=0.24.2"
unrar = "=0.5.8"
flate2 = "=1.1.10"
bzip2 = "=0.4.4"
