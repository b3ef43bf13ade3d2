[package]
name = "iso2raw"
version = "0.1.0"
edition = "2021"
publish = false

[dependencies]
anyhow = "1"
clap = { version = "4", features = ["derive"] }
indicatif = "0.17"
memmap2 = "0.9"
num_cpus = "1"
rayon = "1"
