[package]
name = "keyhook"
version = "0.1.0"
edition = "2021"
publish = false

[dependencies]
rdev = { version = "0.5", features = ["unstable_grab"] }
tokio = { version = "1", features = ["full"] }
jni = "0.21"
objc = "0.2"
winapi = { version = "0.3", features = ["winuser"] }
x11 = { version = "2", features = ["xlib"] }
