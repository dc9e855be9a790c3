[package]
name = "gtav_texture_importer"
version = "0.1.0"
edition = "2021"
publish = false

[dependencies]
anyhow = "1"
image = { version = "0.25", default-features = false, features = ["bmp", "jpeg", "png", "webp"] }
roxmltree = "0.20"
serde = { version = "1", features = ["derive"] }
serde_json = "1"
gtk4 = { version = "0.9", features = ["v4_12"] }
libadwaita = { version = "0.7", features = ["v1_5"] }
