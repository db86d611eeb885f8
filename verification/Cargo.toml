[package]
name = "tile_rpg"
version = "0.1.0"
edition = "2021"
publish = false

[dependencies]
bevy = { version = "0.8", default-features = false, features = ["render", "bevy_winit", "png", "x11"] }
bevy-inspector-egui = "0.12"
