[package]
name = "tilegrid"
version = "0.1.0"
edition = "2021"
publish = false

[dependencies]
bevy = { version = "0.10", default-features = false, features = ["bevy_asset", "bevy_core_pipeline", "bevy_render", "bevy_sprite", "bevy_winit", "png", "x11"] }
bevy_common_assets = { version = "0.6", features = ["json"] }
serde = { version = "1", features = ["derive"] }
