[package]
name = "endoros"
version = "0.1.0"
edition = "2021"
publish = false

[dependencies]
chrono = { version = "0.4", default-features = false, features = ["clock", "std"] }
egui = "0.29"
eframe = { version = "0.29", default-features = false, features = ["wgpu", "default_fonts", "x11"] }
