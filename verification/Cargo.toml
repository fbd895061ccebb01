[package]
name = "ankhimate_editor"
version = "0.1.0"
edition = "2021"
publish = false

[dependencies]
egui = { version = "*", default-features = false }
serde = { version = "1", features = ["derive"] }
serde_json = "1"
directories = "*"
log = "0.4"
