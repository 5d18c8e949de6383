[package]
name = "kvm_video"
version = "0.1.0"
edition = "2021"
publish = false

[dependencies]
xxhash-rust = { version = "=0.8.19", features = ["xxh64"] }
libyuv = "=1.0.0"
turbojpeg = "=1.5.1"
v4l = "=0.14.0"
v4l2r = "=0.0.8"
bytes = "=1.12.1"
serde = { version = "=1.0.229", features = ["derive"] }
parking_lot = "=0.13.0"
nix = "=0.31.3"
libc = "=0.2.191"
uuid = { version = "=1.29.0", features = ["v4"] }
tokio = { version = "=1.54.1", features = ["full"] }
tracing = "=0.1.44"
