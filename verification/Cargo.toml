[package]
name = "stroke_compose"
version = "0.1.0"
edition = "2021"
publish = false

[dependencies]
tera = { version = "*", default-features = false }
serde = { version = "*", features = ["derive"] }
nalgebra = { version = "*", features = ["serde-serialize"] }
parry2d = "*"
svg = "*"
gio = "*"
glib = "*"
librsvg = "*"
