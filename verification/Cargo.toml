[package]
name = "stream_carver"
version = "0.1.0"
edition = "2021"
publish = false

[dependencies]
aho-corasick = "1"
range-set-blaze = "*"
clap = { version = "4", features = ["derive"] }
colored = "*"
glob = "*"
memmap2 = "*"
