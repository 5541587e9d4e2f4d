[package]
name = "brainrot"
version = "0.1.0"
edition = "2021"
publish = false

[dependencies]
async-stream-lite = "*"
chrono = "*"
futures-util = "*"
irc = { version = "*", default-features = false }
pin-project-lite = "*"
rand = "*"
reqwest = { version = "*", default-features = false }
serde = { version = "*", features = ["derive"] }
serde-aux = "*"
simd-json = "*"
thiserror = "*"
tokio = { version = "*", features = ["rt", "time"] }
url = "*"
uuid = "*"
