[package]
name = "dip_visualizer"
version = "0.1.0"
edition = "2021"
publish = false

[dependencies]
image = { version = "=0.25.10", default-features = false, features = ["png", "jpeg"] }
uuid = { version = "=1.29.1", features = ["v4", "serde"] }
serde = { version = "1", features = ["derive"] }
serde_json = "1"
log = "0.4"
env_logger = { version = "0.11", default-features = false }
eframe = { version = "=0.36.2", default-features = false, features = ["default_fonts", "glow", "x11", "persistence"] }
egui = "=0.36.2"
egui_dock = { version = "=0.21.1", features = ["serde"] }
egui_extras = { version = "=0.36.2", default-features = false, features = ["image"] }
egui_ltreeview = "=0.9.0"
egui_plot = "=0.37.0"
rfd = { version = "=0.17.2", default-features = false, features = ["xdg-portal"] }
pollster = "0.4"
