[package]
name = "niri_overview"
version = "0.1.0"
edition = "2021"
publish = false

[dependencies]
knuffel = "=3.2.0"
resvg = "=0.49.0"
usvg = "=0.49.0"
smithay = { version = "=0.7.0", default-features = false }
csscolorparser = "*"
