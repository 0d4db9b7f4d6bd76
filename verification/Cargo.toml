[package]
name = "pet_pvp"
version = "0.1.0"
edition = "2021"
publish = false

[dependencies]
bevy = { version = "=0.17.3", default-features = false, features = ["bevy_state", "bevy_sprite", "bevy_core_pipeline", "bevy_render"] }
bevy_rapier2d = { version = "=0.32.0", default-features = false, features = ["dim2"] }
bevy_renet = "=3.0.0"
bincode = "=1.3.3"
serde = { version = "1", features = ["derive"] }
