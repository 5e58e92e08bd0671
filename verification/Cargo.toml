[package]
name = "vibe-core"
version = "0.1.0"
edition = "2021"
publish = false

[dependencies]
ab_glyph = "0.2"
anyhow = "1"
ashpd = "0.9"
async-trait = "0.1"
clap = { version = "4", features = ["derive"] }
directories = "5"
env_logger = "0.11"
image = { version = "0.25", default-features = false, features = ["jpeg", "png", "webp"] }
imageproc = { version = "0.25", default-features = false }
log = "0.4"
rand = "0.8"
reqwest = { version = "0.12", default-features = false, features = ["json", "rustls-tls"] }
serde = { version = "1", features = ["derive"] }
tokio = { version = "1", features = ["rt-multi-thread", "macros", "time", "sync"] }
toml = "0.8"
zbus = "4"
