[package]
name = "strip_raster"
version = "0.1.0"
edition = "2021"
publish = false

[dependencies]
anyhow = "1"
eframe = { version = "0.19", default-features = false, features = ["glow", "persistence"] }
egui = { version = "0.19", features = ["serde"] }
png = "0.17"
ron = "0.8"
serde = { version = "1", features = ["derive"] }
