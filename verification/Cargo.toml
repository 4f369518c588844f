[package]
name = "scanlined"
version = "0.1.0"
edition = "2021"
publish = false

[dependencies]
rand = "=0.9.5"
bevy = { version = "=0.15.3", default-features = false, features = ["bevy_asset", "bevy_color", "bevy_core_pipeline", "bevy_render", "bevy_sprite", "bevy_state", "bevy_window"] }
bevy_window = "=0.15.3"
bevy_mod_index = "=0.6.0"
egui = { version = "0.29", default-features = false }
egui_plot = { version = "0.29", default-features = false }
