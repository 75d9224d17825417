[package]
name = "ashfall"
version = "0.1.0"
edition = "2021"
publish = false

[dependencies]
bevy = { version = "=0.17.3", default-features = false, features = ["bevy_sprite", "bevy_sprite_render", "bevy_ui", "bevy_ui_render", "bevy_text", "bevy_gizmos", "bevy_state", "default_font"] }
