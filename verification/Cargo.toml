[package]
name = "morpho-engine"
version = "0.1.1"
edition = "2021"
publish = false

[dependencies]
base64 = "=0.22.1"
serde = { version = "=1.0.229", features = ["derive"] }
serde_json = "=1.0.154"
thiserror = "=2.0.21"
tokio = { version = "=1.54.1", features = ["rt-multi-thread", "macros", "process", "sync", "io-util", "time"] }
tokio-util = "=0.7.20"
tempfile = "=3.27.0"
clap = { version = "=4.6.7", features = ["derive"] }
quick-xml = "=0.42.0"
docx-rs = "=0.4.22"
image = "=0.25.10"
libc = "=0.2.191"
