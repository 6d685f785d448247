[package]
name = "clone_factory"
version = "0.1.0"
edition = "2021"
publish = false

[dependencies]
eframe = { version = "*", default-features = false, features = ["default_fonts", "glow", "x11"] }
egui = "*"
egui_extras = "*"
log = "*"
serde = "1"
serde_derive = "1"
toml = "*"
