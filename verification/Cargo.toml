[package]
name = "raw_sniffer"
version = "0.1.0"
edition = "2021"
publish = false

[dependencies]
clap = { version = "4", features = ["derive"] }
colored = "2"
ctrlc = "3"
libc = "0.2"
