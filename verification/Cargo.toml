[package]
name = "fish_shoal"
version = "0.1.0"
edition = "2021"
publish = false

[dependencies]
rand = "0.9"
rayon = "1"
shipyard = "*"
eframe = { version = "*", default-features = false, features = ["glow", "x11"] }
egui = { version = "*", default-features = false }
