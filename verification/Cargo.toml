[package]
name = "dns_checker"
version = "0.1.0"
edition = "2021"
publish = false

[dependencies]
eframe = { version = "0.35", default-features = false, features = ["default_fonts", "glow", "wayland", "x11"] }
image = { version = "=0.25.9", default-features = false, features = ["png"] }
ureq = "=2.12.1"
