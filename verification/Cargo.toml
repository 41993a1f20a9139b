[package]
name = "bevy_bae"
version = "0.1.0"
edition = "2021"
publish = false

[dependencies]
bevy_app = "=0.18.1"
bevy_derive = "=0.18.1"
bevy_ecs = "=0.18.1"
bevy_reflect = "=0.18.1"
bevy_mod_props = "=2.0.0"
estr = "=1.2.0"
tracing = "=0.1.44"
