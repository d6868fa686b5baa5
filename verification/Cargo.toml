[package]
name = "nova_music"
version = "0.1.0"
edition = "2021"
publish = false

[dependencies]
rand = "0.9"
symphonia = "0.5"
rusqlite = { version = "0.37", features = ["bundled"] }
dirs = "6"
