[package]
name = "via_voice"
version = "0.1.0"
edition = "2021"
publish = false

[dependencies]
indexmap = "2"
regex = "1"
uuid = { version = "1", features = ["v4"] }
sha2 = "0.10"
hex = "0.4"
chrono = { version = "0.4", default-features = false, features = ["alloc", "std", "clock"] }
url = "2"
base64 = "0.22"
serde = { version = "1", features = ["derive"] }
serde_json = "1"
tokio = { version = "1", features = ["rt", "rt-multi-thread", "macros", "sync", "time"] }
tokio-util = { version = "0.7", features = ["rt"] }
async-trait = "0.1"
thiserror = "2"
tracing = "0.1"
once_cell = "1"
