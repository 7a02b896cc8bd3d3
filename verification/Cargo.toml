[package]
name = "fractal_valley"
version = "0.1.0"
edition = "2021"
publish = false

[dependencies]
bevy = { version = "0.15", default-features = false, features = ["bevy_animation", "bevy_asset", "bevy_color", "bevy_core_pipeline", "bevy_pbr", "bevy_picking", "bevy_render", "bevy_scene", "bevy_state", "bevy_text", "bevy_ui", "bevy_ui_picking_backend", "bevy_window"] }
avian3d = { version = "0.2", default-features = false, features = ["3d", "f32", "parry-f32", "default-collider"] }
