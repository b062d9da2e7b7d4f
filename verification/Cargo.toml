[package]
name = "pod_craft"
version = "0.1.0"
edition = "2021"
publish = false

[dependencies]
anyhow = "1"
egui = "0.33"
egui_extras = { version = "0.33", features = ["syntect"] }
log = "0.4"
serde = { version = "1", features = ["derive"] }
tracing = "0.1"
