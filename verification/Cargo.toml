[package]
name = "estatus"
version = "0.1.0"
edition = "2021"
publish = false

[dependencies]
serde_yaml = "=0.8.26"
device_query = "=1.0.0"
eframe = "=0.17.0"
egui_extras = { version = "=0.17.0", features = ["image"] }
image = { version = "=0.24.9", default-features = false, features = ["png"] }
