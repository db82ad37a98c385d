[package]
name = "photo_cull"
version = "0.1.0"
edition = "2021"
publish = false

[dependencies]
kamadak-exif = "0.6.1"
serde = { version = "1", features = ["derive"] }
trash = "5.2.9"
