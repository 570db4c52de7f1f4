[package]
name = "cursor_kit"
version = "0.1.0"
edition = "2021"
publish = false

[dependencies]
riff = "=2.0.0"
ico = "=0.6.0"
byteorder = "=1.5.0"
thiserror = "=2.0.21"
serde = { version = "=1.0.229", features = ["derive"] }
serde_json = "=1.0.154"
ron = "=0.12.2"
toml = "=1.1.8"
image = { version = "=0.25.10", default-features = false }
bevy_app = { version = "=0.16.1", default-features = false }
bevy_asset = { version = "=0.16.1", default-features = false }
bevy_ecs = { version = "=0.16.1", default-features = false }
bevy_image = { version = "=0.16.1", default-features = false }
bevy_math = { version = "=0.16.1", default-features = false }
bevy_reflect = { version = "=0.16.1", default-features = false }
bevy_winit = { version = "=0.16.1", default-features = false, features = ["x11", "custom_cursor"] }
