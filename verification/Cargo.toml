[package]
name = "eco_music"
version = "0.2.1"
edition = "2021"
publish = false

[dependencies]
serde = { version = "1", features = ["derive"] }
serde_json = "1"
url = "2"
rand = "0.10"
libc = "0.2"
egui = "0.36"
eframe = { version = "0.36", default-features = false, features = ["default_fonts", "glow", "x11"] }
