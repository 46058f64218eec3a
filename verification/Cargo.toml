[package]
name = "rand_wipe"
version = "0.1.0"
edition = "2021"
publish = false

[dependencies]
anyhow = "1"
clap = { version = "4", features = ["derive"] }
fs2 = "0.4"
humantime = "2"
indicatif = "0.17"
libc = "0.2"
rand = "0.9"
rand_chacha = "0.9"
