[package]
name = "imgc"
version = "0.1.0"
edition = "2021"
publish = false

[dependencies]
bytesize = "*"
clap = { version = "4", features = ["derive"] }
ctrlc = "3"
glob = "0.3"
image = { version = "0.25", default-features = false, features = ["png", "jpeg", "gif", "bmp", "ico", "tiff", "webp", "pnm", "tga", "dds", "hdr", "qoi", "ff"] }
indicatif = { version = "*", features = ["rayon"] }
mozjpeg = "*"
ravif = { version = "*", default-features = false, features = ["threading"] }
rayon = "1"
rgb = "*"
webp = "*"
