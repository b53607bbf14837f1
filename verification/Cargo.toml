[package]
name = "pimax_alvr"
version = "0.1.0"
edition = "2021"
publish = false

[dependencies]
android_logger = "0.13"
anyhow = "1"
bincode = { version = "2", features = ["serde"] }
glam = { version = "0.29", features = ["serde"] }
jni = "0.21"
libc = "0.2"
log = "0.4"
mdns-sd = "*"
ndk = { version = "0.7", features = ["media"] }
ndk-context = "0.1"
ndk-glue = "0.7"
ndk-sys = { version = "0.4", features = ["media"] }
parking_lot = "0.12"
semver = "1"
serde = { version = "1", features = ["derive"] }
serde_json = "1"
tokio = { version = "1", features = ["net", "rt", "time", "io-util", "macros"] }

[dev-dependencies]
tempfile = "3"
