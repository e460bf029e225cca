[package]
name = "remux"
version = "0.1.0"
edition = "2021"
publish = false

[dependencies]
vte = "0.13"
tokio = { version = "1", features = ["full"] }
nix = { version = "0.29", features = ["term", "fs", "process"] }
eframe = { version = "0.29", default-features = false, features = ["glow", "default_fonts", "x11"] }
