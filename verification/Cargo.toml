[package]
name = "note_vault"
version = "0.1.0"
edition = "2021"
publish = false

[dependencies]
gray_matter = "0.2"
serde = { version = "1", features = ["derive"] }
color-eyre = "0.6"

[dev-dependencies]
regex = "1"
