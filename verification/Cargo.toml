[package]
name = "vpxview"
version = "0.1.0"
edition = "2021"
publish = false

[dependencies]
gfx = "=0.18.3"
gfx_device_gl = "=0.16.2"
gfx_text = "=0.33.0"
gfx_window_glutin = "=0.31.0"
glutin = "=0.21.2"
libc = "=0.2.191"
