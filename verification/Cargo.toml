[package]
name = "bench_shortest_path"
version = "0.1.0"
edition = "2021"
publish = false

[dependencies]
orx-priority-queue = "1"
petgraph = "0.6"
priority-queue = "1"
rand = "0.8"
rand_chacha = "0.3"
serde = { version = "1", features = ["derive"] }
serde_json = "1"
strum = { version = "0.26", features = ["derive"] }
strum_macros = "0.26"
itertools = "0.12"
colored = "2"
prettytable-rs = "0.10"
zip-extract = "0.1"
progress = "0.2"
