[package]
name = "photo_site"
version = "0.1.0"
edition = "2021"
publish = false

[dependencies]
anyhow = "=1.0.104"
arc-swap = "=1.9.3"
base64 = "=0.13.1"
chrono = "=0.4.45"
glob = "=0.3.4"
image = "=0.24.9"
kamadak-exif = "=0.5.5"
lazy_static = "=1.5.1"
libc = "=0.2.191"
pulldown-cmark = "=0.9.6"
rayon = "=1.12.0"
regex = "=1.13.1"
rocket = "0.5"
rocket_dyn_templates = { version = "0.2", features = ["tera"] }
serde = { version = "=1.0.229", features = ["derive"] }
serde_json = "=1.0.154"
sha2 = "=0.10.9"
toml = "=0.5.11"
webp = "=0.2.6"
