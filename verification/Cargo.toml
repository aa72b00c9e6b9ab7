[package]
name = "my_library"
version = "0.1.0"
edition = "2021"
publish = false

[dependencies]
anyhow = "1"
bevy = { version = "0.16", default-features = false, features = ["std", "bevy_asset", "bevy_state", "bevy_window", "bevy_render", "bevy_core_pipeline", "bevy_sprite", "png"] }
