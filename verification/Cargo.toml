[package]
name = "bevy_paths"
version = "0.1.0"
edition = "2021"
publish = false

[dependencies]
unicode-normalization = "0.1"
thiserror = "1"
bevy_app = "*"
bevy_ecs = "*"
bevy_log = "*"
