[package]
name = "dae_scene"
version = "0.1.0"
edition = "2021"
publish = false

[dependencies]
anyhow = "=1.0.104"
egui = "=0.31.1"
glam = "=0.34.1"
gltf-json = { version = "=1.4.1", features = ["names"] }
log = "=0.4.34"
rfd = "=0.15.4"
serde_json = "=1.0.154"
ssbh_data = { version = "=0.19.0", features = ["serde"] }
ssbh_lib = "=0.19.0"
xmltree = { version = "=0.12.0", features = ["attribute-order"] }
