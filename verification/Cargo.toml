[package]
name = "tsp_heuristics"
version = "0.1.0"
edition = "2021"
publish = false

[dependencies]
anyhow = "1"
clap = "2"
colorful = "0.2"
plotters = "0.3"
prettytable-rs = "0.10"
rand = "0.8"
rayon = "1"
serde = { version = "1", features = ["derive"] }
