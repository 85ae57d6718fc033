[package]
name = "skelform_editor"
version = "0.1.0"
edition = "2021"
publish = false

[dependencies]
egui = { version = "*", default-features = false }
image = { version = "0.25", default-features = false }
serde_json = "1"
spade = "2"
