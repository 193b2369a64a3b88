[package]
name = "nine_slice"
version = "0.1.0"
edition = "2021"
publish = false

[dependencies]
blittle = "*"
bytemuck = "*"
fast_image_resize = "*"
png = "*"
jpeg-decoder = "*"
jpeg-encoder = "*"
serde = { version = "*", features = ["derive"] }
thiserror = "*"
