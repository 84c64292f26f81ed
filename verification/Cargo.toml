[package]
name = "single_server_queue"
version = "0.1.0"
edition = "2021"
publish = false

[dependencies]
fastrand = "2"
eframe = { version = "0.29", default-features = false, features = ["default_fonts", "glow", "x11"] }
egui_plot = "0.29"
