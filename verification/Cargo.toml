[package]
name = "makepad_host"
version = "0.1.0"
edition = "2021"
publish = false

[dependencies]
serde_json = "1"
wayland-client = "0.31"
wayland-protocols = { version = "0.32", features = ["client", "staging", "unstable"] }
napi-ohos = "*"
napi-derive-ohos = "*"
