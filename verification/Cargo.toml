[package]
name = "native_gl_surface"
version = "0.1.0"
edition = "2021"
publish = false

[dependencies]
android_logger = "=0.15.1"
egui = "=0.36.2"
egui_glow = "=0.36.2"
glow = "=0.17.0"
jni = "=0.22.4"
log = "=0.4.34"
ndk-context = "=0.1.1"
