[package]
name = "katamari_ffi"
version = "0.1.0"
edition = "2021"
publish = false

[dependencies]
bytemuck = "=1.25.2"
eyre = "=0.6.14"
windows-sys = { version = "=0.59.0", features = ["Win32_Foundation", "Win32_System_LibraryLoader", "Win32_System_Memory"] }
eframe = { version = "=0.31.1", default-features = false, features = ["default_fonts", "glow", "x11"] }
egui = { version = "=0.31.1", default-features = false, features = ["default_fonts"] }
winit = { version = "=0.30.13", default-features = false }
winnow = "=0.7.15"
