[package]
name = "asahi"
version = "0.1.0"
edition = "2021"
publish = false

[dependencies]
ab_glyph = "0.2"
async-trait = "0.1"
image = { version = "0.25", default-features = false, features = ["jpeg", "png", "webp"] }
imageproc = { version = "0.25", default-features = false }
num-bigint = "0.4"
num-traits = "0.2"
regex = "1"
reqwest = { version = "0.12", default-features = false, features = ["rustls-tls"] }
sysinfo = "*"
thiserror = "1"
tokio = { version = "1", features = ["rt-multi-thread", "time"] }
tracing = "0.1"
tracing-subscriber = { version = "0.3", features = ["env-filter"] }
unicode-segmentation = "1"
uptime_lib = "*"

[dev-dependencies]
dejavu = "*"
