[package]
name = "spx_vix_calibration"
version = "0.1.0"
edition = "2021"
publish = false

[dependencies]
candle-core = "*"
candle-nn = "*"
ndarray = "*"
rand = "0.9"
rand_distr = "0.5"
rayon = "1"
statrs = { version = "*", default-features = false }
