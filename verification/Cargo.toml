[package]
name = "crustyimg"
version = "0.4.0"
edition = "2021"
publish = false

[dependencies]
image = { version = "=0.25.10", default-features = false, features = ["png", "jpeg", "gif", "webp", "bmp", "tiff", "ico"] }
img-parts = "=0.3.3"
kamadak-exif = "=0.6.1"
glob = "=0.3.4"
toml = "=0.8.23"
serde = { version = "=1.0.229", features = ["derive"] }
resvg = "=0.49.0"
avif-parse = "=2.1.0"
re_rav1d = "=0.1.3"
fast_image_resize = "5"
ssimulacra2 = "*"
skrifa = "*"
zeno = "*"
