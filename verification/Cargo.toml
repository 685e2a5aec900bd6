[package]
name = "relay"
version = "0.1.0"
edition = "2021"
publish = false

[dependencies]
itertools = "=0.13.0"
anyhow = "=1.0.104"
crossbeam = "=0.8.5"
dirs = "=5.0.1"
interprocess = "=2.4.7"
plotters = { version = "=0.3.7", default-features = false, features = ["line_series"] }
plotters-backend = "=0.3.7"
cxx = "1.0"
