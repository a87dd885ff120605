[package]
name = "nodegraph"
version = "0.1.0"
edition = "2021"
publish = false

[dependencies]
slotmap = "=1.1.1"
serde = { version = "=1.0.229", features = ["derive"] }
serde_json = "=1.0.154"
thiserror = "=2.0.21"
glam = { version = "=0.34.2", features = ["serde"] }
fastnoise-lite = "=1.1.1"
image = { version = "=0.25.10", default-features = false, features = ["png"] }
notify = "=8.2.1"
log = "=0.4.35"
env_logger = "=0.11.11"
egui = { version = "=0.36.2", default-features = false }
egui-snarl = "=0.12.0"
