[package]
name = "g_type"
version = "0.1.0"
edition = "2021"
publish = false

[dependencies]
anyhow = "*"
arboard = "*"
base64 = "*"
cpal = "*"
directories = "*"
enigo = "*"
libc = "*"
rdev = "*"
reqwest = { version = "*", default-features = false, features = ["blocking", "json"] }
rodio = { version = "*", default-features = false }
serde = { version = "*", features = ["derive"] }
serde_json = "*"
tokio = { version = "*", features = ["rt-multi-thread", "macros", "sync", "time"] }
toml = "*"
tracing = "*"
tracing-subscriber = { version = "*", features = ["env-filter"] }
