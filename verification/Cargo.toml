[package]
name = "skryn"
version = "0.1.0"
edition = "2021"
publish = false

[dependencies]
app_units = "=0.7.8"
bincode = "=1.2.1"
clipboard = "=0.5.0"
euclid = "=0.19.9"
font-kit = "=0.1.0"
gleam = "=0.6.19"
glutin = "=0.21.2"
harfbuzz-sys = "=0.3.4"
itertools = "=0.8.2"
lazy_static = "=1.5.1"
unicode-bidi = "=0.3.18"
webrender = "=0.60.0"
winit = "=0.19.5"
