[package]
name = "saddle_procgen_mesh_ops"
version = "0.1.0"
edition = "2021"
publish = false

[dependencies]
bevy = { version = "0.17", default-features = false, features = ["std", "bevy_asset", "bevy_render", "bevy_gizmos", "multi_threaded"] }
thiserror = "2"
