[package]
name = "desk_pet"
version = "0.1.0"
edition = "2021"
publish = false

[dependencies]
rand = "0.8"
serde = { version = "1", features = ["derive"] }
toml = "0.8"
anyhow = "1"
notify = "6"
once_cell = "1"
gtk4 = "0.9"
gdk-pixbuf = "0.20"
gtk4-layer-shell = "0.4"
