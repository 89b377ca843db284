[package]
name = "crab_pong"
version = "0.1.0"
edition = "2021"
publish = false

[dependencies]
bevy = { version = "=0.15.3", default-features = false, features = ["bevy_asset", "bevy_color", "bevy_core_pipeline", "bevy_pbr", "bevy_render", "bevy_state", "bevy_text", "bevy_ui", "bevy_window", "default_font", "png"] }
rand = "0.9"
ron = "0.8"
serde = { version = "1", features = ["derive"] }
