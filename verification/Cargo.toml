[package]
name = "nokhwa_bindings"
version = "0.1.0"
edition = "2021"
publish = false

[dependencies]
v4l = "=0.14.0"
libc = "=0.2.191"
windows = { version = "=0.62.2", features = ["Win32_Foundation", "Win32_Media_MediaFoundation", "Win32_Media_DirectShow", "Win32_Media_KernelStreaming", "Win32_System_Com"] }
