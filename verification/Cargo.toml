[package]
name = "domino_path"
version = "0.1.0"
edition = "2021"
publish = false

[dependencies]
bevy = { version = "0.16", default-features = false, features = ["std", "bevy_asset", "bevy_color", "bevy_core_pipeline", "bevy_gizmos", "bevy_pbr", "bevy_render", "bevy_text", "bevy_ui", "bevy_window"] }
bevy_rapier3d = { version = "0.30", default-features = false, features = ["dim3"] }
