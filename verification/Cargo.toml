[package]
name = "verso_ui"
version = "0.1.0"
edition = "2021"
publish = false

[dependencies]
log = "*"
glow = "*"
imgui = "*"
imgui-glow-renderer = "*"
khronos-egl = { version = "*", features = ["static"] }
android-activity = { version = "*", features = ["native-activity"] }
android_logger = "*"
jni = "*"
ndk-context = "*"
quad-snd = "*"
bytemuck = "*"
dear-file-browser = "*"
