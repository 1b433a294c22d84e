[package]
name = "terrain"
version = "0.1.0"
edition = "2021"
publish = false

[dependencies]
bevy = { version = "0.15", default-features = false, features = ["bevy_asset", "bevy_core_pipeline", "bevy_pbr", "bevy_render", "bevy_window", "bevy_winit", "png", "x11"] }
bevy_framepace = { version = "0.18", default-features = false }
bevy_panorbit_camera = { version = "0.21", default-features = false }
