[package]
name = "game_of_life"
version = "0.1.0"
edition = "2021"
publish = false

[dependencies]
eframe = { version = "=0.22.0", default-features = false, features = ["glow"] }
egui_file = "=0.9.1"
getset = "=0.1.7"
thiserror = "=1.0.69"
