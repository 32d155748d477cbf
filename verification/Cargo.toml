[package]
name = "fluid_sim"
version = "0.1.0"
edition = "2021"
publish = false

[dependencies]
bevy = { version = "=0.17.3", default-features = false, features = ["std", "multi_threaded", "bevy_asset", "bevy_color", "bevy_sprite_render", "bevy_window", "bevy_winit", "x11"] }
