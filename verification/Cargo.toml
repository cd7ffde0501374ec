[package]
name = "qc_generator"
version = "0.1.0"
edition = "2021"
publish = false

[dependencies]
crossbeam-channel = "0.5"
csv = "1"
egui_plot = "0.28"
enigo = "0.1"
rand = "0.8"
rand_distr = "0.4"
rdev = "0.5"
rfd = { version = "0.14", default-features = false }
