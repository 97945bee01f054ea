[package]
name = "pico_configurator"
version = "0.1.0"
edition = "2021"
publish = false

[dependencies]
json = "0.12"
indexmap = "2"
eframe = { version = "0.29", default-features = false, features = ["default_fonts", "glow", "x11"] }
image = { version = "0.25", default-features = false, features = ["png"] }
open = "5"

[dev-dependencies]
serde_json = "1"
