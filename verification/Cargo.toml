[package]
name = "floppy_corgi"
version = "0.1.0"
edition = "2021"
publish = false

[dependencies]
noise = "=0.9.0"
bevy = { version = "0.16", default-features = false, features = ["std", "bevy_asset", "bevy_color", "bevy_core_pipeline", "bevy_render", "bevy_sprite", "bevy_text", "bevy_ui", "bevy_window", "png"] }
bevy_transform_interpolation = "0.2"
